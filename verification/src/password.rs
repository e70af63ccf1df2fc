//! Password hashes: a salt, and SHA-256 applied again and again to the salt
//! followed by the password, then by the previous digest. A hash is stored
//! as `sha256$<salt>$<digest>`, both in lower-case hexadecimal.

use vstd::prelude::*;
use crate::digest::{hex_digit, hex_length, hex_of, hex_text, sha256, sha256_of};
use crate::text::chars_of;

verus! {

/// How many times a password is hashed.
pub const ROUNDS: u32 = 100_000;

/// `rounds` applications of SHA-256: first to the salt followed by the
/// password's bytes, then each time to the salt followed by the digest
/// before.
pub open spec fn stretched(salt: Seq<u8>, pw: Seq<u8>, rounds: nat) -> Seq<u8>
    decreases rounds,
{
    if rounds <= 1 {
        sha256_of(salt + pw)
    } else {
        sha256_of(salt + stretched(salt, pw, (rounds - 1) as nat))
    }
}

pub open spec fn hash_prefix() -> Seq<char> {
    seq!['s', 'h', 'a', '2', '5', '6', '$']
}

/// The stored form of a hash with this salt and digest.
pub open spec fn hash_form(salt: Seq<u8>, digest: Seq<u8>) -> Seq<char> {
    hash_prefix() + hex_of(salt) + seq!['$'] + hex_of(digest)
}

/// The stored hash of `password` with this salt.
pub open spec fn hash_of(salt: Seq<u8>, password: Seq<char>) -> Seq<char> {
    hash_form(salt, stretched(salt, vstd::utf8::encode_utf8(password), ROUNDS as nat))
}

/// `password` matches the stored hash `hash`: the hash has the stored form,
/// with a digest of 32 bytes, and the password hashed with its salt gives
/// that digest.
pub open spec fn password_matches(password: Seq<char>, hash: Seq<char>) -> bool {
    exists|salt: Seq<u8>, digest: Seq<u8>|
        #![trigger hash_form(salt, digest)]
        digest.len() == 32 && hash == hash_form(salt, digest) && stretched(
            salt,
            vstd::utf8::encode_utf8(password),
            ROUNDS as nat,
        ) == digest
}

/// `a` followed by `b`.
fn joined(a: &[u8], b: &[u8]) -> (r: Vec<u8>)
    ensures
        r@ == a@ + b@,
{
    let mut r: Vec<u8> = Vec::new();
    let mut i: usize = 0;
    while i < a.len()
        invariant
            i <= a@.len(),
            r@ == a@.take(i as int),
        decreases a.len() - i,
    {
        r.push(a[i]);
        i = i + 1;
        assert(r@ =~= a@.take(i as int));
    }
    let mut j: usize = 0;
    while j < b.len()
        invariant
            i == a@.len(),
            j <= b@.len(),
            r@ == a@ + b@.take(j as int),
        decreases b.len() - j,
    {
        r.push(b[j]);
        j = j + 1;
        assert(r@ =~= a@ + b@.take(j as int));
    }
    assert(b@.take(j as int) =~= b@);
    r
}

/// The password's bytes hashed `rounds` times with the salt.
pub fn stretch(salt: &[u8], password: &str, rounds: u32) -> (d: Vec<u8>)
    requires
        rounds >= 1,
    ensures
        d@ == stretched(salt@, vstd::utf8::encode_utf8(password@), rounds as nat),
        d@.len() == 32,
{
    let pw = password.as_bytes();
    let first = joined(salt, pw);
    let mut d = sha256(first.as_slice());
    let mut i: u32 = 1;
    while i < rounds
        invariant
            1 <= i <= rounds,
            d@ == stretched(salt@, pw@, i as nat),
            d@.len() == 32,
            pw@ == vstd::utf8::encode_utf8(password@),
        decreases rounds - i,
    {
        let next = joined(salt, d.as_slice());
        d = sha256(next.as_slice());
        i = i + 1;
    }
    d
}

/// The stored hash of `password` with this salt; the password matches it.
pub fn hash_with_salt(salt: &[u8], password: &str) -> (h: String)
    ensures
        h@ == hash_of(salt@, password@),
        password_matches(password@, h@),
{
    let d = stretch(salt, password, ROUNDS);
    let mut h = String::from_str("sha256$");
    proof {
        reveal_strlit("sha256$");
        reveal_strlit("$");
    }
    h.append(hex_text(salt).as_str());
    h.append("$");
    h.append(hex_text(d.as_slice()).as_str());
    proof {
        assert(h@ =~= hash_form(salt@, d@));
    }
    h
}

/// The value of a lower-case hexadecimal digit.
pub open spec fn hex_value(c: char) -> Option<nat> {
    if c == '0' { Some(0) } else if c == '1' { Some(1) } else if c == '2' { Some(2) } else if c == '3' { Some(3) }
    else if c == '4' { Some(4) } else if c == '5' { Some(5) } else if c == '6' { Some(6) } else if c == '7' { Some(7) }
    else if c == '8' { Some(8) } else if c == '9' { Some(9) } else if c == 'a' { Some(10) } else if c == 'b' { Some(11) }
    else if c == 'c' { Some(12) } else if c == 'd' { Some(13) } else if c == 'e' { Some(14) } else if c == 'f' { Some(15) }
    else { None }
}

proof fn lemma_hex_value(d: nat, c: char)
    ensures
        d < 16 ==> hex_value(hex_digit(d)) == Some(d),
        hex_value(c) matches Some(v) ==> v < 16 && hex_digit(v) == c,
{
}

/// Every character of a hexadecimal text is a digit.
proof fn lemma_hex_chars(b: Seq<u8>)
    ensures
        forall|i: int| 0 <= i < hex_of(b).len() ==> #[trigger] hex_value(hex_of(b)[i]) is Some,
    decreases b.len(),
{
    if b.len() > 0 {
        lemma_hex_chars(b.drop_last());
        let x = b.last();
        lemma_hex_value((x / 16) as nat, 'x');
        lemma_hex_value((x % 16) as nat, 'x');
        let h = hex_of(b);
        let r = hex_of(b.drop_last());
        assert forall|i: int| 0 <= i < h.len() implies #[trigger] hex_value(h[i]) is Some by {
            if i < r.len() {
                assert(h[i] == r[i]);
            }
        }
    }
}

/// Different bytes give different hexadecimal texts.
proof fn lemma_hex_injective(a: Seq<u8>, b: Seq<u8>)
    requires
        hex_of(a) == hex_of(b),
    ensures
        a == b,
    decreases a.len(),
{
    hex_length(a);
    hex_length(b);
    if a.len() > 0 {
        let (x, y) = (a.last(), b.last());
        let n = hex_of(a).len();
        assert(hex_of(a)[n - 2] == hex_digit((x / 16) as nat));
        assert(hex_of(b)[n - 2] == hex_digit((y / 16) as nat));
        assert(hex_of(a)[n - 1] == hex_digit((x % 16) as nat));
        assert(hex_of(b)[n - 1] == hex_digit((y % 16) as nat));
        lemma_hex_value((x / 16) as nat, 'x');
        lemma_hex_value((y / 16) as nat, 'x');
        lemma_hex_value((x % 16) as nat, 'x');
        lemma_hex_value((y % 16) as nat, 'x');
        assert(x == y);
        hex_length(a.drop_last());
        assert(hex_of(a.drop_last()) =~= hex_of(a).take(n - 2));
        assert(hex_of(b.drop_last()) =~= hex_of(b).take(n - 2));
        lemma_hex_injective(a.drop_last(), b.drop_last());
        assert(a =~= a.drop_last().push(x));
        assert(b =~= b.drop_last().push(y));
    }
}

fn hex_value_of(c: char) -> (r: Option<u8>)
    ensures
        (r is Some) == (hex_value(c) is Some),
        r is Some ==> r.unwrap() as nat == hex_value(c).unwrap(),
{
    if c == '0' { Some(0) } else if c == '1' { Some(1) } else if c == '2' { Some(2) } else if c == '3' { Some(3) }
    else if c == '4' { Some(4) } else if c == '5' { Some(5) } else if c == '6' { Some(6) } else if c == '7' { Some(7) }
    else if c == '8' { Some(8) } else if c == '9' { Some(9) } else if c == 'a' { Some(10) } else if c == 'b' { Some(11) }
    else if c == 'c' { Some(12) } else if c == 'd' { Some(13) } else if c == 'e' { Some(14) } else if c == 'f' { Some(15) }
    else { None }
}

/// The bytes written in hexadecimal as `v[from..to]`, if it is such a text.
fn parse_hex(v: &Vec<char>, from: usize, to: usize) -> (r: Option<Vec<u8>>)
    requires
        from <= to <= v@.len(),
    ensures
        r matches Some(b) ==> hex_of(b@) == v@.subrange(from as int, to as int),
        r is None ==> forall|b: Seq<u8>| hex_of(b) != v@.subrange(from as int, to as int),
{
    let ghost sub = v@.subrange(from as int, to as int);
    if (to - from) % 2 != 0 {
        proof {
            assert forall|b: Seq<u8>| hex_of(b) != sub by {
                hex_length(b);
            }
        }
        return None;
    }
    let mut out: Vec<u8> = Vec::new();
    let mut i: usize = from;
    while i < to
        invariant
            from <= i <= to <= v@.len(),
            (i - from) % 2 == 0,
            (to - from) % 2 == 0,
            sub == v@.subrange(from as int, to as int),
            hex_of(out@) == v@.subrange(from as int, i as int),
        decreases to - i,
    {
        let h = hex_value_of(v[i]);
        let l = hex_value_of(v[i + 1]);
        if h.is_none() || l.is_none() {
            proof {
                assert forall|b: Seq<u8>| hex_of(b) != sub by {
                    if hex_of(b) == sub {
                        lemma_hex_chars(b);
                        assert(hex_value(hex_of(b)[i - from]) is Some);
                        assert(hex_value(hex_of(b)[i + 1 - from]) is Some);
                    }
                }
            }
            return None;
        }
        let (hv, lv) = (h.unwrap(), l.unwrap());
        proof {
            lemma_hex_value(0, v[i as int]);
            lemma_hex_value(0, v[i + 1]);
        }
        let x: u8 = hv * 16 + lv;
        let ghost before = out@;
        out.push(x);
        proof {
            assert(out@.drop_last() =~= before);
            assert(x / 16 == hv && x % 16 == lv);
            assert(hex_of(out@) =~= v@.subrange(from as int, i + 2));
        }
        i = i + 2;
    }
    Some(out)
}

fn same_bytes(a: &Vec<u8>, b: &Vec<u8>) -> (r: bool)
    ensures
        r == (a@ == b@),
{
    if a.len() != b.len() {
        return false;
    }
    let mut i: usize = 0;
    while i < a.len()
        invariant
            a@.len() == b@.len(),
            i <= a@.len(),
            a@.take(i as int) == b@.take(i as int),
        decreases a.len() - i,
    {
        if a[i] != b[i] {
            return false;
        }
        i = i + 1;
        assert(a@.take(i as int) =~= a@.take(i - 1).push(a@[i - 1]));
        assert(b@.take(i as int) =~= b@.take(i - 1).push(b@[i - 1]));
    }
    assert(a@ =~= a@.take(i as int));
    assert(b@ =~= b@.take(i as int));
    true
}

/// Whether `password` matches the stored hash `hash`.
pub fn verify_password(password: &str, hash: &str) -> (ok: bool)
    ensures
        ok == password_matches(password@, hash@),
{
    let v = chars_of(hash);
    let n = v.len();
    if n < 72 || v[0] != 's' || v[1] != 'h' || v[2] != 'a' || v[3] != '2' || v[4] != '5' || v[5] != '6' || v[6] != '$'
        || v[n - 65] != '$' {
        proof {
            assert forall|s: Seq<u8>, d: Seq<u8>| d.len() == 32 implies hash@ != #[trigger] hash_form(s, d) by {
                hex_length(s);
                hex_length(d);
                let f = hash_form(s, d);
                if hash@ == f {
                    assert(f[0] == 's' && f[1] == 'h' && f[2] == 'a' && f[3] == '2' && f[4] == '5' && f[5] == '6' && f[6] == '$');
                    assert(f[f.len() - 65] == '$');
                }
            }
        }
        return false;
    }
    let salt = parse_hex(&v, 7, n - 65);
    let digest = parse_hex(&v, n - 64, n);
    proof {
        assert forall|s: Seq<u8>, d: Seq<u8>| d.len() == 32 && hash@ == #[trigger] hash_form(s, d) implies {
            &&& v@.subrange(7, n - 65) == hex_of(s)
            &&& v@.subrange(n - 64, n as int) == hex_of(d)
        } by {
            hex_length(s);
            hex_length(d);
            assert(v@.subrange(7, n - 65) =~= hex_of(s));
            assert(v@.subrange(n - 64, n as int) =~= hex_of(d));
        }
    }
    if salt.is_none() || digest.is_none() {
        return false;
    }
    let (salt, digest) = (salt.unwrap(), digest.unwrap());
    proof {
        hex_length(salt@);
        hex_length(digest@);
        assert(hash@ =~= hash_form(salt@, digest@));
        assert forall|s: Seq<u8>, d: Seq<u8>| d.len() == 32 && hash@ == #[trigger] hash_form(s, d) implies s == salt@
            && d == digest@ by {
            lemma_hex_injective(s, salt@);
            lemma_hex_injective(d, digest@);
        }
    }
    let d = stretch(salt.as_slice(), password, ROUNDS);
    same_bytes(&d, &digest)
}

} // verus!
