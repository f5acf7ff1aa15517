//! The hidden file, the envelope that carries it (plain, or sealed under a
//! passphrase with a hint beside it), their wire format, and how an envelope is
//! opened.

use vstd::prelude::*;
use vstd::utf8::*;
use crate::cxifrado::{
    Cxifrado, malsigeleblas, nulo_nonco, sigeleblas, sxlosilo_de, xchacha_malsigelo, xchacha_sigelo,
};
use crate::kodado::{
    MalkodEraro, aldoni_bajtaron, aldoni_tekston, aldoni_varint, bajtaro, legi_bajtaron,
    legi_bajtaron_el, legi_tekston, legi_tekston_el, legi_varint, legi_varint_el, lemma_bajtaro_revenas,
    lemma_teksto_revenas, lemma_varint_limo, lemma_varint_revenas, teksto, varint,
};

verus! {

/// Why an envelope could not be made or opened.
#[derive(Debug)]
pub enum Eraro {
    /// The cipher refused: a wrong passphrase or altered bytes on opening,
    /// told apart from neither.
    Cxifrado,
    /// The bytes are no envelope.
    Malkodado(MalkodEraro),
    /// The envelope is sealed and no passphrase was given; this is its hint.
    SekretoFrazo(String),
}

/// A file: its name and its bytes.
#[derive(Debug)]
pub struct Dosiero {
    pub nomo: String,
    pub enhavo: Vec<u8>,
}

/// What a file is: its name as characters and its bytes.
pub struct DosieroModelo {
    pub nomo: Seq<char>,
    pub enhavo: Seq<u8>,
}

impl View for Dosiero {
    type V = DosieroModelo;

    open spec fn view(&self) -> DosieroModelo {
        DosieroModelo { nomo: self.nomo@, enhavo: self.enhavo@ }
    }
}

/// The envelope that is hidden in an image.
#[derive(Debug)]
pub enum Sekreto {
    /// The file as it is.
    Klara(Dosiero),
    /// The file's wire form sealed under a passphrase, and a hint to it.
    Cxifrata { sugesto: String, cxifrata_dosiero: Vec<u8> },
}

/// What an envelope is.
pub enum SekretoModelo {
    Klara(DosieroModelo),
    Cxifrata { sugesto: Seq<char>, cxifrata_dosiero: Seq<u8> },
}

impl View for Sekreto {
    type V = SekretoModelo;

    open spec fn view(&self) -> SekretoModelo {
        match self {
            Sekreto::Klara(d) => SekretoModelo::Klara(d@),
            Sekreto::Cxifrata { sugesto, cxifrata_dosiero } => SekretoModelo::Cxifrata {
                sugesto: sugesto@,
                cxifrata_dosiero: cxifrata_dosiero@,
            },
        }
    }
}

/// A file on the wire: its name as a text, then its bytes as a byte string.
pub open spec fn dosiero_bajtoj(d: DosieroModelo) -> Seq<u8> {
    teksto(d.nomo) + bajtaro(d.enhavo)
}

/// An envelope on the wire: the variant's tag (0 plain, 1 sealed) as a
/// variable-length integer, then its fields in order.
pub open spec fn sekreto_bajtoj(s: SekretoModelo) -> Seq<u8> {
    match s {
        SekretoModelo::Klara(d) => varint(0) + dosiero_bajtoj(d),
        SekretoModelo::Cxifrata { sugesto, cxifrata_dosiero } => varint(1) + teksto(sugesto)
            + bajtaro(cxifrata_dosiero),
    }
}

/// Reads a file at the start of `b`: the file and how many bytes it took.
pub open spec fn legi_dosieron(b: Seq<u8>) -> Result<(DosieroModelo, nat), MalkodEraro> {
    match legi_tekston(b) {
        Err(e) => Err(e),
        Ok((nomo, k)) => match legi_bajtaron(b.skip(k as int)) {
            Err(e) => Err(e),
            Ok((enhavo, j)) => Ok((DosieroModelo { nomo, enhavo }, k + j)),
        },
    }
}

/// Reads an envelope at the start of `b`: the envelope and how many bytes it
/// took.
pub open spec fn legi_sekreton(b: Seq<u8>) -> Result<(SekretoModelo, nat), MalkodEraro> {
    match legi_varint(b, false) {
        Err(e) => Err(e),
        Ok((v, k)) => if v == 0 {
            match legi_dosieron(b.skip(k as int)) {
                Err(e) => Err(e),
                Ok((d, j)) => Ok((SekretoModelo::Klara(d), k + j)),
            }
        } else if v == 1 {
            match legi_tekston(b.skip(k as int)) {
                Err(e) => Err(e),
                Ok((sugesto, j)) => match legi_bajtaron(b.skip((k + j) as int)) {
                    Err(e) => Err(e),
                    Ok((c, i)) => Ok(
                        (SekretoModelo::Cxifrata { sugesto, cxifrata_dosiero: c }, k + j + i),
                    ),
                },
            }
        } else {
            Err(MalkodEraro::NevalidaVarianto(v as u32))
        },
    }
}

/// A file whose name and bytes have lengths that a machine word holds.
pub open spec fn dosiero_valida(d: DosieroModelo) -> bool {
    &&& encode_utf8(d.nomo).len() < 0x1_0000_0000_0000_0000
    &&& d.enhavo.len() < 0x1_0000_0000_0000_0000
}

/// An envelope whose texts and byte strings have lengths that a machine word
/// holds.
pub open spec fn sekreto_valida(s: SekretoModelo) -> bool {
    match s {
        SekretoModelo::Klara(d) => dosiero_valida(d),
        SekretoModelo::Cxifrata { sugesto, cxifrata_dosiero } => encode_utf8(sugesto).len()
            < 0x1_0000_0000_0000_0000 && cxifrata_dosiero.len() < 0x1_0000_0000_0000_0000,
    }
}

/// A file read back from its wire form is that file, and reading takes all of
/// the wire form, whatever follows it.
pub proof fn lemma_dosiero_revenas(d: DosieroModelo, rest: Seq<u8>)
    requires
        dosiero_valida(d),
    ensures
        legi_dosieron(dosiero_bajtoj(d) + rest) == Ok::<(DosieroModelo, nat), MalkodEraro>(
            (d, dosiero_bajtoj(d).len()),
        ),
{
    let b = dosiero_bajtoj(d) + rest;
    lemma_teksto_revenas(d.nomo, bajtaro(d.enhavo) + rest);
    assert(b =~= teksto(d.nomo) + (bajtaro(d.enhavo) + rest));
    let k = teksto(d.nomo).len();
    assert(b.skip(k as int) =~= bajtaro(d.enhavo) + rest);
    lemma_bajtaro_revenas(d.enhavo, rest);
}

proof fn lemma_klara_revenas(d: DosieroModelo, rest: Seq<u8>)
    requires
        dosiero_valida(d),
    ensures
        legi_sekreton(sekreto_bajtoj(SekretoModelo::Klara(d)) + rest) == Ok::<
            (SekretoModelo, nat),
            MalkodEraro,
        >((SekretoModelo::Klara(d), sekreto_bajtoj(SekretoModelo::Klara(d)).len())),
{
    let b = sekreto_bajtoj(SekretoModelo::Klara(d)) + rest;
    lemma_varint_revenas(0, dosiero_bajtoj(d) + rest);
    assert(b =~= varint(0) + (dosiero_bajtoj(d) + rest));
    assert(b.skip(1) =~= dosiero_bajtoj(d) + rest);
    lemma_dosiero_revenas(d, rest);
}

proof fn lemma_cxifrata_revenas(sugesto: Seq<char>, c: Seq<u8>, rest: Seq<u8>)
    requires
        encode_utf8(sugesto).len() < 0x1_0000_0000_0000_0000,
        c.len() < 0x1_0000_0000_0000_0000,
    ensures
        ({
            let s = SekretoModelo::Cxifrata { sugesto, cxifrata_dosiero: c };
            legi_sekreton(sekreto_bajtoj(s) + rest) == Ok::<(SekretoModelo, nat), MalkodEraro>(
                (s, sekreto_bajtoj(s).len()),
            )
        }),
{
    let s = SekretoModelo::Cxifrata { sugesto, cxifrata_dosiero: c };
    let b = sekreto_bajtoj(s) + rest;
    let resto = teksto(sugesto) + bajtaro(c) + rest;
    lemma_varint_revenas(1, resto);
    assert(b =~= varint(1) + resto);
    assert(b.skip(1) =~= teksto(sugesto) + (bajtaro(c) + rest));
    lemma_teksto_revenas(sugesto, bajtaro(c) + rest);
    let j = teksto(sugesto).len();
    assert(b.skip((1 + j) as int) =~= bajtaro(c) + rest);
    lemma_bajtaro_revenas(c, rest);
}

/// An envelope read back from its wire form is that envelope, and reading
/// takes all of the wire form, whatever follows it.
pub proof fn lemma_sekreto_revenas(s: SekretoModelo, rest: Seq<u8>)
    requires
        sekreto_valida(s),
    ensures
        legi_sekreton(sekreto_bajtoj(s) + rest) == Ok::<(SekretoModelo, nat), MalkodEraro>(
            (s, sekreto_bajtoj(s).len()),
        ),
{
    match s {
        SekretoModelo::Klara(d) => lemma_klara_revenas(d, rest),
        SekretoModelo::Cxifrata { sugesto, cxifrata_dosiero } => lemma_cxifrata_revenas(
            sugesto,
            cxifrata_dosiero,
            rest,
        ),
    }
}

/// What opening the envelope `s` with the passphrase `frazo` gives: a plain
/// envelope its file, whatever the passphrase; a sealed one without a
/// passphrase its hint as the error; a sealed one with a passphrase the file
/// that the opened bytes spell, or the cipher's or the reader's error; a
/// sealed one longer than the cipher opens the cipher's error.
pub open spec fn malfermita(s: SekretoModelo, frazo: Option<Seq<char>>, r: Result<Dosiero, Eraro>) -> bool {
    match s {
        SekretoModelo::Klara(d) => r matches Ok(x) && x@ == d,
        SekretoModelo::Cxifrata { sugesto, cxifrata_dosiero } => match frazo {
            None => r matches Err(Eraro::SekretoFrazo(h)) && h@ == sugesto,
            Some(f) => if !malsigeleblas(cxifrata_dosiero) {
                r matches Err(Eraro::Cxifrado)
            } else {
                match xchacha_malsigelo(sxlosilo_de(f), nulo_nonco(), cxifrata_dosiero) {
                    None => r matches Err(Eraro::Cxifrado),
                    Some(p) => match legi_dosieron(p) {
                        Ok((d, _)) => r matches Ok(x) && x@ == d,
                        Err(e) => r matches Err(Eraro::Malkodado(x)) && x == e,
                    },
                }
            },
        },
    }
}

/// Opening the envelope `s` with the passphrase `frazo` gives the file `d`.
pub open spec fn malfermo_donas(s: SekretoModelo, frazo: Seq<char>, d: DosieroModelo) -> bool {
    forall|r: Result<Dosiero, Eraro>| #[trigger]
        malfermita(s, Some(frazo), r) ==> (r matches Ok(x) && x@ == d)
}

/// A passphrase, if any, as characters.
pub open spec fn frazo_modelo(frazo: Option<String>) -> Option<Seq<char>> {
    match frazo {
        Some(f) => Some(f@),
        None => None,
    }
}

impl Dosiero {
    /// The wire form of this file.
    pub fn kodi(&self) -> (r: Vec<u8>)
        ensures
            r@ == dosiero_bajtoj(self@),
    {
        let mut r: Vec<u8> = Vec::new();
        aldoni_tekston(&mut r, &self.nomo);
        aldoni_bajtaron(&mut r, self.enhavo.as_slice());
        assert(r@ =~= dosiero_bajtoj(self@));
        r
    }

    /// Reads a file from the start of `b`; bytes after it are left unread.
    pub fn malkodi(b: &[u8]) -> (r: Result<Dosiero, MalkodEraro>)
        ensures
            match legi_dosieron(b@) {
                Ok((d, _)) => r matches Ok(x) && x@ == d,
                Err(e) => r == Err::<Dosiero, MalkodEraro>(e),
            },
    {
        assert(b@.subrange(0, b@.len() as int) =~= b@);
        let (nomo, p) = match legi_tekston_el(b, 0) {
            Ok(np) => np,
            Err(e) => return Err(e),
        };
        assert(b@.subrange(p as int, b@.len() as int) =~= b@.skip(p as int));
        let (enhavo, _) = match legi_bajtaron_el(b, p) {
            Ok(ep) => ep,
            Err(e) => return Err(e),
        };
        Ok(Dosiero { nomo, enhavo })
    }
}

impl Sekreto {
    /// The plain envelope of `dosiero`.
    pub fn klara(dosiero: Dosiero) -> (r: Self)
        ensures
            r@ == SekretoModelo::Klara(dosiero@),
    {
        Sekreto::Klara(dosiero)
    }

    /// The envelope that seals the wire form of `dosiero` under
    /// `sekreta_frazo`, with `sugesto` as its hint; opening it with the same
    /// passphrase gives `dosiero` back. Fails only where the cipher refuses a
    /// message that long.
    pub fn cxifrata(sugesto: &str, sekreta_frazo: &str, dosiero: &Dosiero) -> (r: Result<Self, Eraro>)
        ensures
            r is Ok <==> sigeleblas(dosiero_bajtoj(dosiero@)),
            r matches Ok(s) ==> (s@ == SekretoModelo::Cxifrata {
                sugesto: sugesto@,
                cxifrata_dosiero: xchacha_sigelo(
                    sxlosilo_de(sekreta_frazo@),
                    nulo_nonco(),
                    dosiero_bajtoj(dosiero@),
                ),
            }),
            r matches Ok(s) ==> malfermo_donas(s@, sekreta_frazo@, dosiero@),
            r matches Err(e) ==> (e is Cxifrado),
    {
        let bajtoj = dosiero.kodi();
        let longo = bajtoj.len();
        match Cxifrado::cxifri(bajtoj.as_slice(), sekreta_frazo) {
            Ok(c) => {
                let s = Sekreto::Cxifrata { sugesto: String::from_str(sugesto), cxifrata_dosiero: c };
                proof {
                    let d = dosiero@;
                    assert(dosiero_valida(d));
                    lemma_dosiero_revenas(d, seq![]);
                    assert(dosiero_bajtoj(d) + seq![] =~= dosiero_bajtoj(d));
                    assert forall|x: Result<Dosiero, Eraro>| #[trigger]
                        malfermita(s@, Some(sekreta_frazo@), x) implies (x matches Ok(y) && y@
                        == d) by {}
                }
                Ok(s)
            },
            Err(_) => Err(Eraro::Cxifrado),
        }
    }

    /// Opens this envelope: a plain one gives its file whatever passphrase is
    /// given; a sealed one needs the passphrase, and gives its hint back as the
    /// error where there is none.
    pub fn into_dosiero(self, sekreta_frazo: Option<String>) -> (r: Result<Dosiero, Eraro>)
        ensures
            malfermita(self@, frazo_modelo(sekreta_frazo), r),
    {
        match self {
            Sekreto::Klara(dosiero) => Ok(dosiero),
            Sekreto::Cxifrata { sugesto, cxifrata_dosiero } => match sekreta_frazo {
                None => Err(Eraro::SekretoFrazo(sugesto)),
                Some(frazo) => match Cxifrado::decxifri(cxifrata_dosiero.as_slice(), frazo.as_str()) {
                    Err(_) => Err(Eraro::Cxifrado),
                    Ok(p) => match Dosiero::malkodi(p.as_slice()) {
                        Ok(d) => Ok(d),
                        Err(e) => Err(Eraro::Malkodado(e)),
                    },
                },
            },
        }
    }

    /// The wire form of this envelope.
    pub fn kodi(&self) -> (r: Vec<u8>)
        ensures
            r@ == sekreto_bajtoj(self@),
    {
        let mut r: Vec<u8> = Vec::new();
        match self {
            Sekreto::Klara(d) => {
                aldoni_varint(&mut r, 0);
                let b = d.kodi();
                crate::kodado::aldoni_bajtojn(&mut r, b.as_slice());
            },
            Sekreto::Cxifrata { sugesto, cxifrata_dosiero } => {
                aldoni_varint(&mut r, 1);
                aldoni_tekston(&mut r, sugesto);
                aldoni_bajtaron(&mut r, cxifrata_dosiero.as_slice());
            },
        }
        assert(r@ =~= sekreto_bajtoj(self@));
        r
    }

    /// Reads an envelope from the start of `b`; bytes after it are left
    /// unread.
    pub fn malkodi(b: &[u8]) -> (r: Result<Sekreto, MalkodEraro>)
        ensures
            match legi_sekreton(b@) {
                Ok((s, _)) => r matches Ok(x) && x@ == s,
                Err(e) => r == Err::<Sekreto, MalkodEraro>(e),
            },
    {
        assert(b@.subrange(0, b@.len() as int) =~= b@);
        proof {
            lemma_varint_limo(b@, false);
        }
        let (v, p) = match legi_varint_el(b, 0, false) {
            Ok(vp) => vp,
            Err(e) => return Err(e),
        };
        assert(b@.subrange(p as int, b@.len() as int) =~= b@.skip(p as int));
        if v == 0 {
            let (nomo, q) = match legi_tekston_el(b, p) {
                Ok(nq) => nq,
                Err(e) => return Err(e),
            };
            assert(b@.subrange(q as int, b@.len() as int) =~= b@.skip(p as int).skip(q - p));
            let (enhavo, _) = match legi_bajtaron_el(b, q) {
                Ok(eq) => eq,
                Err(e) => return Err(e),
            };
            Ok(Sekreto::Klara(Dosiero { nomo, enhavo }))
        } else if v == 1 {
            let (sugesto, q) = match legi_tekston_el(b, p) {
                Ok(sq) => sq,
                Err(e) => return Err(e),
            };
            assert(b@.subrange(q as int, b@.len() as int) =~= b@.skip(q as int));
            let (cxifrata_dosiero, _) = match legi_bajtaron_el(b, q) {
                Ok(cq) => cq,
                Err(e) => return Err(e),
            };
            Ok(Sekreto::Cxifrata { sugesto, cxifrata_dosiero })
        } else {
            Err(MalkodEraro::NevalidaVarianto(v as u32))
        }
    }
}

} // verus!
