//! Embedding an envelope into a cover image's pixels and extracting it again.
//!
//! The pixels are taken in raster order, one byte each: first the length of
//! the envelope's wire form in eight little-endian bytes (the width of `usize`
//! on 64-bit targets), then the wire form itself. Pixels past that are left
//! as they were.

use vstd::prelude::*;
use crate::cxifrado::{nulo_nonco, sigeleblas, sxlosilo_de, xchacha_sigelo};
use crate::kodado::{
    MalkodEraro, aldoni_bajtojn, aldoni_le, le_bajtoj, le_valoro, legi_le, lemma_le_revenas,
    lemma_pot256_valoroj,
};
use crate::sekreto::{
    self, Dosiero, DosieroModelo, Sekreto, SekretoModelo, dosiero_bajtoj, frazo_modelo,
    legi_sekreton, malfermita, sekreto_bajtoj,
};
use crate::servajxoj::{cxifri_bajton, decxifri_bajton, kodita, lemma_kanalo_revenas, malkodita};

verus! {

/// The width of the length prefix, in bytes.
pub const PREFIKSO: usize = 8;

/// Why embedding or extracting failed.
#[derive(Debug)]
pub enum Eraro {
    /// A file could not be read or written; what the system said.
    Io(String),
    /// A file is no image in a format that is read; what the decoder said.
    Bildo(String),
    /// The envelope could not be made, read or opened.
    Sekreto(sekreto::Eraro),
    /// The cover image has fewer pixels than the bytes to hide.
    Kapacito,
}

/// The bytes hidden for the wire form `korpo`: its length, then itself.
pub open spec fn enpagxo(korpo: Seq<u8>) -> Seq<u8> {
    le_bajtoj(korpo.len(), PREFIKSO as nat) + korpo
}

/// The byte that each pixel carries, in order.
pub open spec fn legitaj(pikseloj: Seq<[u8; 4]>) -> Seq<u8> {
    Seq::new(pikseloj.len(), |i: int| malkodita(pikseloj[i]@))
}

/// The length that the first bytes of the carried bytes `b` give.
pub open spec fn prefikso_de(b: Seq<u8>) -> nat {
    le_valoro(b.subrange(0, PREFIKSO as int))
}

/// Whether the carried bytes `b` hold a whole length prefix and as many bytes
/// after it as it gives.
pub open spec fn tuta(b: Seq<u8>) -> bool {
    b.len() >= PREFIKSO && b.len() >= PREFIKSO + prefikso_de(b)
}

/// The wire form that the carried bytes `b` hold after their length prefix.
pub open spec fn korpo_de(b: Seq<u8>) -> Seq<u8> {
    b.subrange(PREFIKSO as int, PREFIKSO + prefikso_de(b))
}

/// `post` is `antaux` with the bytes `b` written into its first pixels, one
/// each, and the other pixels as they were.
pub open spec fn skribitaj(antaux: Seq<[u8; 4]>, b: Seq<u8>, post: Seq<[u8; 4]>) -> bool {
    &&& post.len() == antaux.len()
    &&& forall|i: int|
        0 <= i < post.len() ==> #[trigger] post[i]@ == if i < b.len() {
            kodita(antaux[i]@, b[i])
        } else {
            antaux[i]@
        }
}

/// The envelope made for the file `d`: sealed with the hint and passphrase of
/// `cxifrado` where it is given, plain where it is not.
pub open spec fn koverto(d: DosieroModelo, cxifrado: Option<(String, String)>) -> SekretoModelo {
    match cxifrado {
        Some((sugesto, frazo)) => SekretoModelo::Cxifrata {
            sugesto: sugesto@,
            cxifrata_dosiero: xchacha_sigelo(sxlosilo_de(frazo@), nulo_nonco(), dosiero_bajtoj(d)),
        },
        None => SekretoModelo::Klara(d),
    }
}

/// Pixels into which the bytes hidden for a wire form were written carry that
/// wire form back.
pub proof fn lemma_pikseloj_revenas(antaux: Seq<[u8; 4]>, korpo: Seq<u8>, post: Seq<[u8; 4]>)
    requires
        korpo.len() < 0x1_0000_0000_0000_0000,
        enpagxo(korpo).len() <= antaux.len(),
        skribitaj(antaux, enpagxo(korpo), post),
    ensures
        tuta(legitaj(post)),
        korpo_de(legitaj(post)) == korpo,
{
    let b = enpagxo(korpo);
    let l = legitaj(post);
    lemma_pot256_valoroj();
    lemma_le_revenas(korpo.len(), PREFIKSO as nat);
    assert forall|i: int| 0 <= i < b.len() implies #[trigger] l[i] == b[i] by {
        lemma_kanalo_revenas(antaux[i]@, b[i]);
    }
    assert(l.subrange(0, PREFIKSO as int) =~= le_bajtoj(korpo.len(), PREFIKSO as nat));
    assert(korpo_de(l) =~= korpo);
}

/// Hiding a file and then reading the pixels gives back the envelope that was
/// made for it.
pub proof fn lemma_ensxipigxo_revenas(
    antaux: Seq<[u8; 4]>,
    d: DosieroModelo,
    cxifrado: Option<(String, String)>,
    post: Seq<[u8; 4]>,
)
    requires
        sekreto::sekreto_valida(koverto(d, cxifrado)),
        sekreto_bajtoj(koverto(d, cxifrado)).len() < 0x1_0000_0000_0000_0000,
        enpagxo(sekreto_bajtoj(koverto(d, cxifrado))).len() <= antaux.len(),
        skribitaj(antaux, enpagxo(sekreto_bajtoj(koverto(d, cxifrado))), post),
    ensures
        tuta(legitaj(post)),
        legi_sekreton(korpo_de(legitaj(post))) == Ok::<(SekretoModelo, nat), MalkodEraro>(
            (koverto(d, cxifrado), sekreto_bajtoj(koverto(d, cxifrado)).len()),
        ),
{
    let korpo = sekreto_bajtoj(koverto(d, cxifrado));
    lemma_pikseloj_revenas(antaux, korpo, post);
    sekreto::lemma_sekreto_revenas(koverto(d, cxifrado), seq![]);
    assert(korpo + seq![] =~= korpo);
}

/// The sealing asked for by an optional hint and an optional passphrase: none
/// without either; the passphrase with the hint, or with an empty hint where
/// none is given; `None` for a hint without a passphrase, which is refused.
pub fn cxifrado_el(sugesto: Option<String>, sekreta_frazo: Option<String>) -> (r: Option<
    Option<(String, String)>,
>)
    ensures
        match (sugesto, sekreta_frazo) {
            (None, None) => r == Some(None::<(String, String)>),
            (None, Some(f)) => r matches Some(Some((h, g))) && h@.len() == 0 && g@ == f@,
            (Some(_), None) => r is None,
            (Some(s), Some(f)) => r matches Some(Some((h, g))) && h@ == s@ && g@ == f@,
        },
{
    match (sugesto, sekreta_frazo) {
        (None, None) => Some(None),
        (None, Some(f)) => Some(Some((String::new(), f))),
        (Some(_), None) => None,
        (Some(s), Some(f)) => Some(Some((s, f))),
    }
}

/// Writes `enpagxo` into the first pixels, one byte each; refuses, and
/// changes nothing, where there are fewer pixels than bytes.
pub fn ensxipigxi_bajtojn(pikseloj: &mut Vec<[u8; 4]>, enpagxo: &[u8]) -> (r: Result<(), Eraro>)
    ensures
        r is Ok <==> enpagxo@.len() <= old(pikseloj)@.len(),
        r is Ok ==> skribitaj(old(pikseloj)@, enpagxo@, final(pikseloj)@),
        r is Err ==> final(pikseloj)@ == old(pikseloj)@ && (r matches Err(Eraro::Kapacito)),
{
    if enpagxo.len() > pikseloj.len() {
        return Err(Eraro::Kapacito);
    }
    let mut i: usize = 0;
    while i < enpagxo.len()
        invariant
            i <= enpagxo@.len() <= pikseloj@.len(),
            pikseloj@.len() == old(pikseloj)@.len(),
            forall|j: int|
                0 <= j < pikseloj@.len() ==> #[trigger] pikseloj@[j]@ == if j < i {
                    kodita(old(pikseloj)@[j]@, enpagxo@[j])
                } else {
                    old(pikseloj)@[j]@
                },
        decreases enpagxo@.len() - i,
    {
        let q = cxifri_bajton(pikseloj[i], enpagxo[i]);
        pikseloj.set(i, q);
        i = i + 1;
    }
    Ok(())
}

/// Hides `dosiero` in the pixels: sealed under the passphrase of `cxifrado`
/// with its hint where it is given, plain where it is not. Fails where the
/// pixels are too few for the length prefix and the envelope, and changes
/// nothing then.
pub fn ensxipigxi(
    pikseloj: &mut Vec<[u8; 4]>,
    dosiero: Dosiero,
    cxifrado: Option<(String, String)>,
) -> (r: Result<(), Eraro>)
    ensures
        ({
            let b = enpagxo(sekreto_bajtoj(koverto(dosiero@, cxifrado)));
            &&& (cxifrado is None || sigeleblas(dosiero_bajtoj(dosiero@))) ==> (r is Ok <==> b.len()
                <= old(pikseloj)@.len())
            &&& r is Ok ==> b.len() <= old(pikseloj)@.len() && skribitaj(
                old(pikseloj)@,
                b,
                final(pikseloj)@,
            )
            &&& r matches Err(Eraro::Kapacito) ==> b.len() > old(pikseloj)@.len()
        }),
        r is Err ==> final(pikseloj)@ == old(pikseloj)@,
        r matches Err(e) ==> (e is Kapacito || (e matches Eraro::Sekreto(
            sekreto::Eraro::Cxifrado,
        ))),
        r matches Err(Eraro::Sekreto(_)) ==> (cxifrado is Some && !sigeleblas(
            dosiero_bajtoj(dosiero@),
        )),
        cxifrado is Some && !sigeleblas(dosiero_bajtoj(dosiero@)) ==> (r matches Err(
            Eraro::Sekreto(sekreto::Eraro::Cxifrado),
        )),
{
    let sekreto = match cxifrado {
        Some((sugesto, frazo)) => match Sekreto::cxifrata(sugesto.as_str(), frazo.as_str(), &dosiero) {
            Ok(s) => s,
            Err(e) => return Err(Eraro::Sekreto(e)),
        },
        None => Sekreto::klara(dosiero),
    };
    let korpo = sekreto.kodi();
    let mut b: Vec<u8> = Vec::new();
    aldoni_le(&mut b, korpo.len() as u64, PREFIKSO);
    aldoni_bajtojn(&mut b, korpo.as_slice());
    assert(b@ =~= enpagxo(korpo@));
    ensxipigxi_bajtojn(pikseloj, b.as_slice())
}

/// Recovers the file hidden in the pixels: reads the length prefix and the
/// envelope after it, and opens the envelope with `sekreta_frazo`. Pixels that
/// hold no envelope give a reading error, and so do pixels too few for the
/// length that the prefix gives.
pub fn ekstrakti(pikseloj: &[[u8; 4]], sekreta_frazo: Option<String>) -> (r: Result<Dosiero, Eraro>)
    ensures
        ({
            let b = legitaj(pikseloj@);
            &&& !tuta(b) ==> (r matches Err(Eraro::Sekreto(
                sekreto::Eraro::Malkodado(MalkodEraro::Trancxita),
            )))
            &&& tuta(b) ==> match legi_sekreton(korpo_de(b)) {
                Err(e) => r matches Err(Eraro::Sekreto(sekreto::Eraro::Malkodado(x))) && x == e,
                Ok((s, _)) => match r {
                    Ok(d) => malfermita(s, frazo_modelo(sekreta_frazo), Ok(d)),
                    Err(Eraro::Sekreto(e)) => malfermita(s, frazo_modelo(sekreta_frazo), Err(e)),
                    Err(_) => false,
                },
            }
        }),
{
    let ghost b = legitaj(pikseloj@);
    if pikseloj.len() < PREFIKSO {
        return Err(Eraro::Sekreto(sekreto::Eraro::Malkodado(MalkodEraro::Trancxita)));
    }
    let mut legita: Vec<u8> = Vec::new();
    let mut i: usize = 0;
    while i < PREFIKSO
        invariant
            i <= PREFIKSO <= pikseloj@.len(),
            b == legitaj(pikseloj@),
            legita@ == b.subrange(0, i as int),
        decreases PREFIKSO - i,
    {
        legita.push(decxifri_bajton(pikseloj[i]));
        i = i + 1;
        assert(legita@ =~= b.subrange(0, i as int));
    }
    let n = legi_le(legita.as_slice(), 0, PREFIKSO);
    assert(legita@.subrange(0, PREFIKSO as int) =~= b.subrange(0, PREFIKSO as int));
    let resto = pikseloj.len() - PREFIKSO;
    if n > resto as u64 {
        return Err(Eraro::Sekreto(sekreto::Eraro::Malkodado(MalkodEraro::Trancxita)));
    }
    let fino: usize = PREFIKSO + n as usize;
    let mut korpo: Vec<u8> = Vec::new();
    let mut j: usize = PREFIKSO;
    while j < fino
        invariant
            PREFIKSO <= j <= fino <= pikseloj@.len(),
            b == legitaj(pikseloj@),
            korpo@ == b.subrange(PREFIKSO as int, j as int),
        decreases fino - j,
    {
        korpo.push(decxifri_bajton(pikseloj[j]));
        j = j + 1;
        assert(korpo@ =~= b.subrange(PREFIKSO as int, j as int));
    }
    assert(korpo@ == korpo_de(b));
    let sekreto = match Sekreto::malkodi(korpo.as_slice()) {
        Ok(s) => s,
        Err(e) => return Err(Eraro::Sekreto(sekreto::Eraro::Malkodado(e))),
    };
    match sekreto.into_dosiero(sekreta_frazo) {
        Ok(d) => Ok(d),
        Err(e) => Err(Eraro::Sekreto(e)),
    }
}

} // verus!
