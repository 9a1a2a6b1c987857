//! Identifiers of projects and runs.
//!
//! A project is identified by its path: letters and digits stay as they are
//! and every other character becomes `_HEX_`, the upper-case hexadecimal code
//! of the character (at least two digits), so `-` becomes `_2D_`.  A run (one
//! script of one project) is identified by `{pathId}@{script}`.

use vstd::prelude::*;

use crate::outside::{char_is_alphanumeric, unicode_alphanumeric};
use crate::text::{chars_of, is_ascii_alnum, string_from_chars};

verus! {

/// Characters that a path identifier keeps as they are: ASCII letters and
/// digits, and the non-ASCII characters that `char::is_alphanumeric` accepts.
pub open spec fn kept_in_id(c: char) -> bool {
    if (c as u32) < 128 {
        is_ascii_alnum(c)
    } else {
        unicode_alphanumeric(c)
    }
}

/// The upper-case hexadecimal digit of `d` (`0 <= d < 16`).
pub open spec fn hex_digit(d: int) -> char {
    if d < 10 {
        (48 + d) as char
    } else {
        (55 + d) as char
    }
}

/// The hexadecimal digits of `n`, most significant first, without leading zeros.
pub open spec fn hex_digits(n: nat) -> Seq<char>
    decreases n,
{
    if n < 16 {
        seq![hex_digit(n as int)]
    } else {
        hex_digits(n / 16).push(hex_digit((n % 16) as int))
    }
}

/// The hexadecimal code of `n` written with at least two digits.
pub open spec fn hex_code(n: nat) -> Seq<char> {
    if n < 16 {
        seq!['0', hex_digit(n as int)]
    } else {
        hex_digits(n)
    }
}

/// How one character of a path appears in the path identifier.
pub open spec fn encode_char(c: char) -> Seq<char> {
    if kept_in_id(c) {
        seq![c]
    } else {
        seq!['_'] + hex_code((c as u32) as nat) + seq!['_']
    }
}

/// The identifier of the project at `path`.
pub open spec fn path_id(path: Seq<char>) -> Seq<char>
    decreases path.len(),
{
    if path.len() == 0 {
        Seq::empty()
    } else {
        path_id(path.drop_last()) + encode_char(path.last())
    }
}

/// The identifier of the run of `script` in the project at `path`.
pub open spec fn run_id(path: Seq<char>, script: Seq<char>) -> Seq<char> {
    path_id(path) + seq!['@'] + script
}

fn hex_digit_exec(d: u32) -> (r: char)
    requires
        d < 16,
    ensures
        r == hex_digit(d as int),
{
    if d < 10 {
        let b: u8 = (48 + d) as u8;
        b as char
    } else {
        let b: u8 = (55 + d) as u8;
        b as char
    }
}

fn push_hex_digits(out: &mut Vec<char>, n: u32)
    ensures
        final(out)@ == old(out)@ + hex_digits(n as nat),
    decreases n,
{
    if n < 16 {
        out.push(hex_digit_exec(n));
    } else {
        push_hex_digits(out, n / 16);
        out.push(hex_digit_exec(n % 16));
    }
}

fn push_encoded(out: &mut Vec<char>, c: char)
    ensures
        final(out)@ == old(out)@ + encode_char(c),
{
    let keep = if (c as u32) < 128 {
        ('0' <= c && c <= '9') || ('a' <= c && c <= 'z') || ('A' <= c && c <= 'Z')
    } else {
        char_is_alphanumeric(c)
    };
    if keep {
        out.push(c);
    } else {
        let code: u32 = c as u32;
        out.push('_');
        if code < 16 {
            out.push('0');
        }
        push_hex_digits(out, code);
        out.push('_');
    }
}

/// Identifier of the project at `path`: letters and digits are kept and every
/// other character is written as `_HEX_`.
pub fn project_id_from_path(path: &str) -> (id: String)
    ensures
        id@ == path_id(path@),
{
    let cs = chars_of(path);
    let mut out: Vec<char> = Vec::new();
    let mut i: usize = 0;
    while i < cs.len()
        invariant
            i <= cs.len(),
            cs@ == path@,
            out@ == path_id(cs@.take(i as int)),
        decreases cs.len() - i,
    {
        push_encoded(&mut out, cs[i]);
        i = i + 1;
        assert(cs@.take(i as int).drop_last() == cs@.take(i - 1));
    }
    assert(cs@.take(cs.len() as int) == cs@);
    string_from_chars(out.as_slice())
}

/// Identifier of one run: the project identifier, `@`, then the script name,
/// so that one project can run several scripts side by side.
pub fn run_id_from(path: &str, script: &str) -> (id: String)
    ensures
        id@ == run_id(path@, script@),
{
    let pid = project_id_from_path(path);
    let mut cs = chars_of(pid.as_str());
    cs.push('@');
    let s = chars_of(script);
    let mut i: usize = 0;
    while i < s.len()
        invariant
            i <= s.len(),
            s@ == script@,
            cs@ == path_id(path@) + seq!['@'] + script@.take(i as int),
        decreases s.len() - i,
    {
        cs.push(s[i]);
        i = i + 1;
        assert(script@.take(i as int) == script@.take(i - 1).push(script@[i - 1]));
    }
    assert(script@.take(s.len() as int) == script@);
    string_from_chars(cs.as_slice())
}

// ----- laws -----

pub open spec fn is_hex_char(c: char) -> bool {
    ('0' <= c && c <= '9') || ('A' <= c && c <= 'F')
}

/// The value of a sequence of hexadecimal digits.
pub open spec fn hex_value(s: Seq<char>) -> int
    decreases s.len(),
{
    if s.len() == 0 {
        0
    } else {
        16 * hex_value(s.drop_last()) + hex_digit_value(s.last())
    }
}

pub open spec fn hex_digit_value(c: char) -> int {
    if c <= '9' {
        c as int - 48
    } else {
        c as int - 55
    }
}

proof fn lemma_hex_digit(d: int)
    requires
        0 <= d < 16,
    ensures
        is_hex_char(hex_digit(d)),
        hex_digit_value(hex_digit(d)) == d,
{
    if d < 10 {
        assert(((48 + d) as char) as int == 48 + d);
    } else {
        assert(((55 + d) as char) as int == 55 + d);
    }
}

proof fn lemma_hex_digits(n: nat)
    ensures
        hex_digits(n).len() >= 1,
        forall|i: int| 0 <= i < hex_digits(n).len() ==> is_hex_char(#[trigger] hex_digits(n)[i]),
        hex_value(hex_digits(n)) == n,
    decreases n,
{
    if n >= 16 {
        lemma_hex_digit((n % 16) as int);
        lemma_hex_digits(n / 16);
        let h = hex_digits(n);
        assert(h.drop_last() == hex_digits(n / 16));
        assert(h.last() == hex_digit((n % 16) as int));
        assert(hex_value(h) == 16 * hex_value(h.drop_last()) + hex_digit_value(h.last()));
        assert(n == 16 * (n / 16) + n % 16) by {
            vstd::arithmetic::div_mod::lemma_fundamental_div_mod(n as int, 16);
        }
    } else {
        lemma_hex_digit(n as int);
        let h = hex_digits(n);
        assert(h.drop_last() =~= Seq::<char>::empty());
        assert(hex_value(Seq::<char>::empty()) == 0);
        assert(hex_value(h) == 16 * hex_value(h.drop_last()) + hex_digit_value(h.last()));
    }
}

proof fn lemma_hex_code(n: nat)
    ensures
        hex_code(n).len() >= 1,
        forall|i: int| 0 <= i < hex_code(n).len() ==> is_hex_char(#[trigger] hex_code(n)[i]),
        hex_value(hex_code(n)) == n,
{
    lemma_hex_digits(n);
    if n < 16 {
        let s = hex_code(n);
        assert(s.drop_last() =~= seq!['0']);
        assert(seq!['0'].drop_last() =~= Seq::<char>::empty());
        assert(seq!['0'].last() == '0');
        assert(hex_value(seq!['0']) == 16 * hex_value(Seq::<char>::empty()) + 0);
        assert(hex_digits(n) =~= seq![s.last()]);
        assert(seq![s.last()].drop_last() =~= Seq::<char>::empty());
        assert(hex_value(hex_digits(n)) == hex_value(seq![s.last()]));
    }
}

proof fn lemma_encode_char(c: char)
    ensures
        encode_char(c).len() >= 1,
        forall|i: int|
            0 <= i < encode_char(c).len() ==> #[trigger] encode_char(c)[i] != '@',
        kept_in_id(c) ==> encode_char(c).last() != '_',
        !kept_in_id(c) ==> encode_char(c).last() == '_',
{
    lemma_hex_code((c as u32) as nat);
}

proof fn lemma_path_id_no_at(p: Seq<char>)
    ensures
        forall|i: int| 0 <= i < path_id(p).len() ==> #[trigger] path_id(p)[i] != '@',
    decreases p.len(),
{
    if p.len() > 0 {
        lemma_path_id_no_at(p.drop_last());
        lemma_encode_char(p.last());
        let a = path_id(p.drop_last());
        let b = encode_char(p.last());
        assert forall|i: int| 0 <= i < path_id(p).len() implies #[trigger] path_id(p)[i] != '@' by {
            if i < a.len() {
                assert(path_id(p)[i] == a[i]);
            } else {
                assert(path_id(p)[i] == b[i - a.len()]);
            }
        }
    }
}

/// Splitting `pa + "_" + ha + "_"` where `ha` has no `_`: the last chunk is
/// determined by the text.
proof fn lemma_last_chunk(pa: Seq<char>, ha: Seq<char>, pb: Seq<char>, hb: Seq<char>)
    requires
        forall|i: int| 0 <= i < ha.len() ==> #[trigger] ha[i] != '_',
        forall|i: int| 0 <= i < hb.len() ==> #[trigger] hb[i] != '_',
        pa + seq!['_'] + ha + seq!['_'] == pb + seq!['_'] + hb + seq!['_'],
    ensures
        pa == pb,
        ha == hb,
{
    let t = pa + seq!['_'] + ha + seq!['_'];
    let tb = pb + seq!['_'] + hb + seq!['_'];
    assert(t.len() == pa.len() + ha.len() + 2);
    assert(tb.len() == pb.len() + hb.len() + 2);
    if ha.len() < hb.len() {
        let k = pa.len() as int;
        assert(t[k] == '_');
        let mb = pb + seq!['_'] + hb;
        assert(mb[k] == hb[k - pb.len() - 1]);
        assert(tb[k] == mb[k]);
    } else if hb.len() < ha.len() {
        let k = pb.len() as int;
        assert(tb[k] == '_');
        let ma = pa + seq!['_'] + ha;
        assert(ma[k] == ha[k - pa.len() - 1]);
        assert(t[k] == ma[k]);
    }
    assert(pa.len() == pb.len());
    assert forall|i: int| 0 <= i < pa.len() implies pa[i] == pb[i] by {
        assert(t[i] == pa[i]);
        assert(tb[i] == pb[i]);
    }
    assert(pa =~= pb);
    assert forall|i: int| 0 <= i < ha.len() implies ha[i] == hb[i] by {
        assert(t[pa.len() + 1 + i] == ha[i]);
        assert(tb[pb.len() + 1 + i] == hb[i]);
    }
    assert(ha =~= hb);
}

/// Two paths with the same project identifier are the same path: the
/// `_HEX_` encoding loses nothing, so projects at different paths never share
/// an identifier.
#[verifier::rlimit(40)]
pub proof fn lemma_project_id_injective(a: Seq<char>, b: Seq<char>)
    requires
        path_id(a) == path_id(b),
    ensures
        a == b,
    decreases a.len() + b.len(),
{
    if a.len() == 0 && b.len() == 0 {
        assert(a =~= b);
    } else if a.len() == 0 {
        lemma_encode_char(b.last());
        assert(path_id(b).len() >= 1);
    } else if b.len() == 0 {
        lemma_encode_char(a.last());
        assert(path_id(a).len() >= 1);
    } else {
        let x = a.last();
        let y = b.last();
        let pa = path_id(a.drop_last());
        let pb = path_id(b.drop_last());
        let t = path_id(a);
        lemma_encode_char(x);
        lemma_encode_char(y);
        assert(t.last() == encode_char(x).last());
        assert(path_id(b).last() == encode_char(y).last());
        if kept_in_id(x) {
            assert(kept_in_id(y));
            assert(x == y);
            assert(pa =~= t.drop_last());
            assert(pb =~= path_id(b).drop_last());
        } else {
            assert(!kept_in_id(y));
            let ha = hex_code((x as u32) as nat);
            let hb = hex_code((y as u32) as nat);
            lemma_hex_code((x as u32) as nat);
            lemma_hex_code((y as u32) as nat);
            assert(forall|i: int| 0 <= i < ha.len() ==> #[trigger] ha[i] != '_') by {
                assert forall|i: int| 0 <= i < ha.len() implies #[trigger] ha[i] != '_' by {
                    assert(is_hex_char(ha[i]));
                }
            }
            assert(forall|i: int| 0 <= i < hb.len() ==> #[trigger] hb[i] != '_') by {
                assert forall|i: int| 0 <= i < hb.len() implies #[trigger] hb[i] != '_' by {
                    assert(is_hex_char(hb[i]));
                }
            }
            assert(pa + seq!['_'] + ha + seq!['_'] =~= t);
            assert(pb + seq!['_'] + hb + seq!['_'] =~= path_id(b));
            lemma_last_chunk(pa, ha, pb, hb);
            assert((x as u32) == (y as u32));
            vstd::utf8::char_u32_cast(x, x as u32);
            vstd::utf8::char_u32_cast(y, y as u32);
            assert(x == y);
        }
        lemma_project_id_injective(a.drop_last(), b.drop_last());
        assert(a =~= a.drop_last().push(x));
        assert(b =~= b.drop_last().push(y));
    }
}

/// Two runs share an identifier only when they are the same script of the
/// same project: the project part never holds `@`.
pub proof fn lemma_run_id_injective(
    path1: Seq<char>,
    script1: Seq<char>,
    path2: Seq<char>,
    script2: Seq<char>,
)
    requires
        run_id(path1, script1) == run_id(path2, script2),
    ensures
        path1 == path2,
        script1 == script2,
{
    let p1 = path_id(path1);
    let p2 = path_id(path2);
    let t1 = run_id(path1, script1);
    let t2 = run_id(path2, script2);
    lemma_path_id_no_at(path1);
    lemma_path_id_no_at(path2);
    if p1.len() < p2.len() {
        assert(t1[p1.len() as int] == '@');
        assert(t2[p1.len() as int] == p2[p1.len() as int]);
    } else if p2.len() < p1.len() {
        assert(t2[p2.len() as int] == '@');
        assert(t1[p2.len() as int] == p1[p2.len() as int]);
    }
    assert(p1.len() == p2.len());
    assert(p1 =~= t1.take(p1.len() as int));
    assert(p2 =~= t2.take(p2.len() as int));
    lemma_project_id_injective(path1, path2);
    assert(script1 =~= t1.skip(p1.len() as int + 1));
    assert(script2 =~= t2.skip(p2.len() as int + 1));
}

} // verus!
