//! The wire format of the envelope: little-endian integers, variable-length
//! integers, and length-prefixed byte strings and texts.

use vstd::prelude::*;
use vstd::utf8::*;

verus! {

/// Why a byte string could not be read back as an envelope.
#[derive(Debug, Clone, Copy, PartialEq, Eq, Structural)]
pub enum MalkodEraro {
    /// The bytes end before the value does.
    Trancxita,
    /// A variable-length integer starts with a marker that is not allowed
    /// for the width being read.
    NevalidaEntjero,
    /// A variant tag names no variant.
    NevalidaVarianto(u32),
    /// A text is not valid UTF-8.
    NevalidaUtf8,
}

/// `256` to the power `k`.
pub open spec fn pot256(k: nat) -> nat
    decreases k,
{
    if k == 0 {
        1
    } else {
        256 * pot256((k - 1) as nat)
    }
}

/// The number that the bytes `b` spell, least significant byte first.
pub open spec fn le_valoro(b: Seq<u8>) -> nat
    decreases b.len(),
{
    if b.len() == 0 {
        0
    } else {
        b[0] as nat + 256 * le_valoro(b.drop_first())
    }
}

/// The `n` lowest bytes of `v`, least significant first.
pub open spec fn le_bajtoj(v: nat, n: nat) -> Seq<u8>
    decreases n,
{
    if n == 0 {
        seq![]
    } else {
        seq![(v % 256) as u8] + le_bajtoj(v / 256, (n - 1) as nat)
    }
}

/// The shortest variable-length form of `v`: one byte up to 250, else a
/// marker (251, 252, 253) and two, four or eight little-endian bytes.
pub open spec fn varint(v: nat) -> Seq<u8> {
    if v <= 250 {
        seq![v as u8]
    } else if v < 0x1_0000 {
        seq![251u8] + le_bajtoj(v, 2)
    } else if v < 0x1_0000_0000 {
        seq![252u8] + le_bajtoj(v, 4)
    } else {
        seq![253u8] + le_bajtoj(v, 8)
    }
}

/// A byte string on the wire: its length, then the bytes.
pub open spec fn bajtaro(b: Seq<u8>) -> Seq<u8> {
    varint(b.len()) + b
}

/// A text on the wire: its UTF-8 bytes as a byte string.
pub open spec fn teksto(s: Seq<char>) -> Seq<u8> {
    bajtaro(encode_utf8(s))
}

/// Reads a variable-length integer at the start of `b`: its value and how many
/// bytes it took. A narrow integer (32 bits) refuses the eight-byte form.
/// Longer forms than needed are read too.
pub open spec fn legi_varint(b: Seq<u8>, larga: bool) -> Result<(nat, nat), MalkodEraro> {
    if b.len() == 0 {
        Err(MalkodEraro::Trancxita)
    } else if b[0] <= 250 {
        Ok((b[0] as nat, 1))
    } else if b[0] == 251 {
        if b.len() < 3 {
            Err(MalkodEraro::Trancxita)
        } else {
            Ok((le_valoro(b.subrange(1, 3)), 3))
        }
    } else if b[0] == 252 {
        if b.len() < 5 {
            Err(MalkodEraro::Trancxita)
        } else {
            Ok((le_valoro(b.subrange(1, 5)), 5))
        }
    } else if b[0] == 253 && larga {
        if b.len() < 9 {
            Err(MalkodEraro::Trancxita)
        } else {
            Ok((le_valoro(b.subrange(1, 9)), 9))
        }
    } else {
        Err(MalkodEraro::NevalidaEntjero)
    }
}

/// Reads a byte string at the start of `b`: the bytes and how many bytes the
/// whole took.
pub open spec fn legi_bajtaron(b: Seq<u8>) -> Result<(Seq<u8>, nat), MalkodEraro> {
    match legi_varint(b, true) {
        Err(e) => Err(e),
        Ok((n, k)) => if b.len() < k + n {
            Err(MalkodEraro::Trancxita)
        } else {
            Ok((b.subrange(k as int, (k + n) as int), k + n))
        },
    }
}

/// Reads a text at the start of `b`: the characters and how many bytes it took.
pub open spec fn legi_tekston(b: Seq<u8>) -> Result<(Seq<char>, nat), MalkodEraro> {
    match legi_bajtaron(b) {
        Err(e) => Err(e),
        Ok((t, k)) => if valid_utf8(t) {
            Ok((decode_utf8(t), k))
        } else {
            Err(MalkodEraro::NevalidaUtf8)
        },
    }
}

/// The powers of 256 that the integer widths of the wire format need.
pub proof fn lemma_pot256_valoroj()
    ensures
        pot256(2) == 0x1_0000,
        pot256(4) == 0x1_0000_0000,
        pot256(8) == 0x1_0000_0000_0000_0000,
{
    reveal_with_fuel(pot256, 9);
}

/// Powers of 256 grow with the exponent.
pub proof fn lemma_pot256_kreskas(j: nat, k: nat)
    requires
        j <= k,
    ensures
        pot256(j) <= pot256(k),
    decreases k,
{
    if j < k {
        lemma_pot256_kreskas(j, (k - 1) as nat);
    }
}

/// Reading back `n` little-endian bytes of a number below `256^n` gives it back.
pub proof fn lemma_le_revenas(v: nat, n: nat)
    requires
        v < pot256(n),
    ensures
        le_bajtoj(v, n).len() == n,
        le_valoro(le_bajtoj(v, n)) == v,
    decreases n,
{
    if n > 0 {
        let p = pot256((n - 1) as nat);
        assert(v / 256 < p) by (nonlinear_arith)
            requires
                v < 256 * p,
        ;
        lemma_le_revenas(v / 256, (n - 1) as nat);
        let b = le_bajtoj(v, n);
        assert(b.drop_first() =~= le_bajtoj(v / 256, (n - 1) as nat));
        assert(v % 256 + 256 * (v / 256) == v) by (nonlinear_arith);
    }
}

/// The shortest form of a number is read back as that number, whatever follows
/// it.
pub proof fn lemma_varint_revenas(v: nat, rest: Seq<u8>)
    requires
        v < 0x1_0000_0000_0000_0000,
    ensures
        legi_varint(varint(v) + rest, true) == Ok::<(nat, nat), MalkodEraro>((v, varint(v).len())),
        v < 0x1_0000_0000 ==> legi_varint(varint(v) + rest, false) == Ok::<(nat, nat), MalkodEraro>(
            (v, varint(v).len()),
        ),
{
    lemma_pot256_valoroj();
    let b = varint(v) + rest;
    if v <= 250 {
    } else if v < 0x1_0000 {
        lemma_le_revenas(v, 2);
        assert(b.subrange(1, 3) =~= le_bajtoj(v, 2));
    } else if v < 0x1_0000_0000 {
        lemma_le_revenas(v, 4);
        assert(b.subrange(1, 5) =~= le_bajtoj(v, 4));
    } else {
        lemma_le_revenas(v, 8);
        assert(b.subrange(1, 9) =~= le_bajtoj(v, 8));
    }
}

/// A byte string is read back as itself, whatever follows it.
pub proof fn lemma_bajtaro_revenas(t: Seq<u8>, rest: Seq<u8>)
    requires
        t.len() < 0x1_0000_0000_0000_0000,
    ensures
        legi_bajtaron(bajtaro(t) + rest) == Ok::<(Seq<u8>, nat), MalkodEraro>(
            (t, bajtaro(t).len()),
        ),
{
    let b = bajtaro(t) + rest;
    lemma_varint_revenas(t.len(), t + rest);
    assert(b =~= varint(t.len()) + (t + rest));
    let k = varint(t.len()).len();
    assert(b.subrange(k as int, (k + t.len()) as int) =~= t);
}

/// A text is read back as itself, whatever follows it.
pub proof fn lemma_teksto_revenas(s: Seq<char>, rest: Seq<u8>)
    requires
        encode_utf8(s).len() < 0x1_0000_0000_0000_0000,
    ensures
        legi_tekston(teksto(s) + rest) == Ok::<(Seq<char>, nat), MalkodEraro>(
            (s, teksto(s).len()),
        ),
{
    broadcast use encode_utf8_valid_utf8, encode_utf8_decode_utf8;

    lemma_bajtaro_revenas(encode_utf8(s), rest);
}

/// Relies on std::str::from_utf8: it accepts exactly the valid UTF-8 byte
/// strings, and reads each as the characters that it encodes.
#[verifier::external_body]
fn el_utf8(b: &[u8]) -> (r: Option<String>)
    ensures
        r is Some <==> valid_utf8(b@),
        r matches Some(s) ==> s@ == decode_utf8(b@),
{
    match std::str::from_utf8(b) {
        Ok(s) => Some(String::from(s)),
        Err(_) => None,
    }
}

/// Appends the bytes `b` to `out`.
pub fn aldoni_bajtojn(out: &mut Vec<u8>, b: &[u8])
    ensures
        final(out)@ == old(out)@ + b@,
{
    let mut i: usize = 0;
    while i < b.len()
        invariant
            i <= b@.len(),
            out@ == old(out)@ + b@.subrange(0, i as int),
        decreases b@.len() - i,
    {
        out.push(b[i]);
        i = i + 1;
        assert(out@ =~= old(out)@ + b@.subrange(0, i as int));
    }
    assert(b@.subrange(0, i as int) =~= b@);
}

/// Appends the `n` lowest bytes of `v` to `out`, least significant first.
pub fn aldoni_le(out: &mut Vec<u8>, v: u64, n: usize)
    ensures
        final(out)@ == old(out)@ + le_bajtoj(v as nat, n as nat),
{
    let mut w: u64 = v;
    let mut i: usize = 0;
    while i < n
        invariant
            i <= n,
            out@ + le_bajtoj(w as nat, (n - i) as nat) == old(out)@ + le_bajtoj(v as nat, n as nat),
        decreases n - i,
    {
        let ghost antaux = out@;
        assert(le_bajtoj(w as nat, (n - i) as nat) == seq![(w % 256) as u8] + le_bajtoj(
            (w / 256) as nat,
            (n - i - 1) as nat,
        ));
        out.push((w % 256) as u8);
        w = w / 256;
        i = i + 1;
        assert(out@ + le_bajtoj(w as nat, (n - i) as nat) =~= antaux + (seq![out@.last()]
            + le_bajtoj(w as nat, (n - i) as nat)));
    }
}

/// Reads `n` little-endian bytes of `b` from `pos` on.
pub fn legi_le(b: &[u8], pos: usize, n: usize) -> (r: u64)
    requires
        n <= 8,
        pos + n <= b@.len(),
    ensures
        r as nat == le_valoro(b@.subrange(pos as int, pos + n)),
{
    let mut v: u64 = 0;
    let mut i: usize = n;
    let longo = b.len();
    while i > 0
        invariant
            i <= n <= 8,
            longo == b@.len(),
            pos + n <= b@.len(),
            v as nat == le_valoro(b@.subrange(pos + i, pos + n)),
            v < pot256((n - i) as nat),
        decreases i,
    {
        i = i - 1;
        let ghost s = b@.subrange(pos + i, pos + n);
        assert(s.drop_first() =~= b@.subrange(pos + i + 1, pos + n));
        proof {
            lemma_pot256_kreskas((n - i) as nat, 8);
            lemma_pot256_valoroj();
            let p = pot256((n - i - 1) as nat);
            assert(pot256((n - i) as nat) == 256 * p);
            assert(v * 256 + 255 < 256 * p) by (nonlinear_arith)
                requires
                    v < p,
            ;
        }
        let x = b[pos + i] as u64;
        assert(v * 256 + x < pot256(8));
        v = v * 256 + x;
    }
    v
}

/// Appends the shortest variable-length form of `v` to `out`.
pub fn aldoni_varint(out: &mut Vec<u8>, v: u64)
    ensures
        final(out)@ == old(out)@ + varint(v as nat),
{
    if v <= 250 {
        out.push(v as u8);
        assert(out@ =~= old(out)@ + varint(v as nat));
    } else {
        let marko: u8;
        let n: usize;
        if v < 0x1_0000 {
            marko = 251;
            n = 2;
        } else if v < 0x1_0000_0000 {
            marko = 252;
            n = 4;
        } else {
            marko = 253;
            n = 8;
        }
        out.push(marko);
        aldoni_le(out, v, n);
        assert(out@ =~= old(out)@ + varint(v as nat));
    }
}

/// Reads a variable-length integer from `pos` on: its value and the position
/// after it.
pub fn legi_varint_el(b: &[u8], pos: usize, larga: bool) -> (r: Result<(u64, usize), MalkodEraro>)
    requires
        pos <= b@.len(),
    ensures
        match legi_varint(b@.subrange(pos as int, b@.len() as int), larga) {
            Ok((v, k)) => r == Ok::<(u64, usize), MalkodEraro>((v as u64, (pos + k) as usize)),
            Err(e) => r == Err::<(u64, usize), MalkodEraro>(e),
        },
        r matches Ok((v, p)) ==> pos < p <= b@.len(),
{
    let ghost s = b@.subrange(pos as int, b@.len() as int);
    proof {
        lemma_varint_limo(s, larga);
    }
    let resto = b.len() - pos;
    if resto == 0 {
        return Err(MalkodEraro::Trancxita);
    }
    let marko = b[pos];
    let n: usize;
    if marko <= 250 {
        return Ok((marko as u64, pos + 1));
    } else if marko == 251 {
        n = 2;
    } else if marko == 252 {
        n = 4;
    } else if marko == 253 && larga {
        n = 8;
    } else {
        return Err(MalkodEraro::NevalidaEntjero);
    }
    if resto < n + 1 {
        return Err(MalkodEraro::Trancxita);
    }
    let v = legi_le(b, pos + 1, n);
    assert(s.subrange(1, n + 1) =~= b@.subrange(pos + 1, pos + 1 + n));
    proof {
        lemma_pot256_valoroj();
        lemma_le_sub_pot(b@.subrange(pos + 1, pos + 1 + n));
    }
    Ok((v, pos + 1 + n))
}

/// What a variable-length integer reads as fits its width, and what it took
/// lies within the bytes.
pub proof fn lemma_varint_limo(b: Seq<u8>, larga: bool)
    ensures
        legi_varint(b, larga) matches Ok((v, k)) ==> 0 < k <= b.len() && v
            < 0x1_0000_0000_0000_0000 && (!larga ==> v < 0x1_0000_0000),
{
    lemma_pot256_valoroj();
    if b.len() >= 3 {
        lemma_le_sub_pot(b.subrange(1, 3));
    }
    if b.len() >= 5 {
        lemma_le_sub_pot(b.subrange(1, 5));
    }
    if b.len() >= 9 {
        lemma_le_sub_pot(b.subrange(1, 9));
    }
}

/// A number spelled by `b` is below `256^len`.
pub proof fn lemma_le_sub_pot(b: Seq<u8>)
    ensures
        le_valoro(b) < pot256(b.len()),
    decreases b.len(),
{
    if b.len() > 0 {
        lemma_le_sub_pot(b.drop_first());
        let p = pot256((b.len() - 1) as nat);
        let x = le_valoro(b.drop_first());
        assert(b[0] as nat + 256 * x < 256 * p) by (nonlinear_arith)
            requires
                x < p,
                b[0] < 256,
        ;
    }
}

/// Appends `t` as a byte string: its length, then the bytes.
pub fn aldoni_bajtaron(out: &mut Vec<u8>, t: &[u8])
    ensures
        final(out)@ == old(out)@ + bajtaro(t@),
{
    aldoni_varint(out, t.len() as u64);
    aldoni_bajtojn(out, t);
    assert(out@ =~= old(out)@ + bajtaro(t@));
}

/// Appends `s` as a text: its UTF-8 bytes as a byte string.
pub fn aldoni_tekston(out: &mut Vec<u8>, s: &String)
    ensures
        final(out)@ == old(out)@ + teksto(s@),
{
    aldoni_bajtaron(out, s.as_str().as_bytes());
}

/// Reads a byte string from `pos` on: the bytes and the position after them.
pub fn legi_bajtaron_el(b: &[u8], pos: usize) -> (r: Result<(Vec<u8>, usize), MalkodEraro>)
    requires
        pos <= b@.len(),
    ensures
        match legi_bajtaron(b@.subrange(pos as int, b@.len() as int)) {
            Ok((t, k)) => r matches Ok((v, p)) && v@ == t && p == pos + k,
            Err(e) => r == Err::<(Vec<u8>, usize), MalkodEraro>(e),
        },
        r matches Ok((v, p)) ==> pos < p <= b@.len(),
{
    let ghost s = b@.subrange(pos as int, b@.len() as int);
    proof {
        lemma_varint_limo(s, true);
    }
    let (n, p) = match legi_varint_el(b, pos, true) {
        Ok(np) => np,
        Err(e) => return Err(e),
    };
    if n > (b.len() - p) as u64 {
        return Err(MalkodEraro::Trancxita);
    }
    let fino = p + n as usize;
    let v = vstd::slice::slice_to_vec(vstd::slice::slice_subrange(b, p, fino));
    assert(s.subrange((p - pos) as int, (fino - pos) as int) =~= b@.subrange(p as int, fino as int));
    Ok((v, fino))
}

/// Reads a text from `pos` on: the text and the position after it.
pub fn legi_tekston_el(b: &[u8], pos: usize) -> (r: Result<(String, usize), MalkodEraro>)
    requires
        pos <= b@.len(),
    ensures
        match legi_tekston(b@.subrange(pos as int, b@.len() as int)) {
            Ok((t, k)) => r matches Ok((v, p)) && v@ == t && p == pos + k,
            Err(e) => r == Err::<(String, usize), MalkodEraro>(e),
        },
        r matches Ok((v, p)) ==> pos < p <= b@.len(),
{
    let (bajtoj, p) = match legi_bajtaron_el(b, pos) {
        Ok(bp) => bp,
        Err(e) => return Err(e),
    };
    match el_utf8(bajtoj.as_slice()) {
        Some(s) => Ok((s, p)),
        None => Err(MalkodEraro::NevalidaUtf8),
    }
}

} // verus!
