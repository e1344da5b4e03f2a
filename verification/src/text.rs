//! Small verified string utilities shared by the envelope protocol and the
//! agents: equality of string slices and template substitution.

use vstd::prelude::*;
use vstd::string::{StrSliceExecFns, StringExecFns};

verus! {

/// Character-for-character equality of two string slices.
pub fn str_eq(a: &str, b: &str) -> (r: bool)
    ensures
        r == (a@ == b@),
{
    let alen = a.unicode_len();
    let blen = b.unicode_len();
    if alen != blen {
        return false;
    }
    let mut i: usize = 0;
    while i < alen
        invariant
            alen == a@.len(),
            blen == b@.len(),
            alen == blen,
            i <= alen,
            forall|j: int| 0 <= j < i ==> a@[j] == b@[j],
        decreases alen - i,
    {
        if a.get_char(i) != b.get_char(i) {
            return false;
        }
        i = i + 1;
    }
    proof {
        assert(a@ =~= b@);
    }
    true
}

/// Left-to-right, non-overlapping replacement of every occurrence of `pat`
/// by `rep`.
pub open spec fn replaced(s: Seq<char>, pat: Seq<char>, rep: Seq<char>) -> Seq<char>
    decreases s.len(),
    when pat.len() > 0
{
    if s.len() < pat.len() {
        s
    } else if s.take(pat.len() as int) == pat {
        rep + replaced(s.skip(pat.len() as int), pat, rep)
    } else {
        s.take(1) + replaced(s.skip(1), pat, rep)
    }
}

/// Whether `pat` occurs in `s` at position `i`.
fn matches_at(s: &str, slen: usize, i: usize, pat: &str, plen: usize) -> (r: bool)
    requires
        slen == s@.len(),
        plen == pat@.len(),
        i + plen <= slen,
    ensures
        r == (s@.subrange(i as int, i + plen) == pat@),
{
    let mut j: usize = 0;
    while j < plen
        invariant
            slen == s@.len(),
            plen == pat@.len(),
            i + plen <= slen,
            j <= plen,
            forall|m: int| 0 <= m < j ==> s@[i + m] == pat@[m],
        decreases plen - j,
    {
        if s.get_char(i + j) != pat.get_char(j) {
            proof {
                assert(s@.subrange(i as int, i + plen)[j as int] == s@[i + j]);
            }
            return false;
        }
        j = j + 1;
    }
    proof {
        assert(s@.subrange(i as int, i + plen) =~= pat@);
    }
    true
}

/// Replaces every occurrence of `pat` in `s` by `rep`, left to right and
/// without overlaps.
pub fn replace_all(s: &str, pat: &str, rep: &str) -> (r: String)
    requires
        pat@.len() > 0,
    ensures
        r@ == replaced(s@, pat@, rep@),
{
    let slen = s.unicode_len();
    let plen = pat.unicode_len();
    let mut out = String::new();
    let mut i: usize = 0;
    proof {
        assert(s@.skip(0) =~= s@);
        assert(out@ + replaced(s@, pat@, rep@) =~= replaced(s@, pat@, rep@));
    }
    while plen <= slen - i && i < slen
        invariant
            slen == s@.len(),
            plen == pat@.len(),
            plen > 0,
            i <= slen,
            replaced(s@, pat@, rep@) == out@ + replaced(s@.skip(i as int), pat@, rep@),
        decreases slen - i,
    {
        let ghost tail = s@.skip(i as int);
        if matches_at(s, slen, i, pat, plen) {
            proof {
                assert(tail.take(plen as int) =~= s@.subrange(i as int, i + plen));
                assert(tail.skip(plen as int) =~= s@.skip(i + plen));
            }
            out.append(rep);
            i = i + plen;
        } else {
            proof {
                assert(tail.take(plen as int) =~= s@.subrange(i as int, i + plen));
                assert(tail.take(1) =~= s@.subrange(i as int, i + 1));
                assert(tail.skip(1) =~= s@.skip(i + 1));
            }
            let c = s.substring_char(i, i + 1);
            out.append(c);
            i = i + 1;
        }
        proof {
            assert(replaced(s@, pat@, rep@) == out@ + replaced(s@.skip(i as int), pat@, rep@));
        }
    }
    let tail = s.substring_char(i, slen);
    proof {
        assert(tail@ =~= s@.skip(i as int));
        assert(replaced(s@.skip(i as int), pat@, rep@) == s@.skip(i as int));
    }
    out.append(tail);
    out
}

/// The decimal digit character for a value below ten.
pub open spec fn digit(d: nat) -> char {
    if d == 0 {
        '0'
    } else if d == 1 {
        '1'
    } else if d == 2 {
        '2'
    } else if d == 3 {
        '3'
    } else if d == 4 {
        '4'
    } else if d == 5 {
        '5'
    } else if d == 6 {
        '6'
    } else if d == 7 {
        '7'
    } else if d == 8 {
        '8'
    } else {
        '9'
    }
}

/// The decimal rendering of a number, most significant digit first.
pub open spec fn dec_str(n: nat) -> Seq<char>
    decreases n,
{
    if n < 10 {
        seq![digit(n)]
    } else {
        dec_str(n / 10).push(digit(n % 10))
    }
}

/// The decimal digit string for a value below ten.
fn digit_str(d: u64) -> (r: &'static str)
    requires
        d < 10,
    ensures
        r@ == seq![digit(d as nat)],
{
    let r: &'static str = if d == 0 {
        "0"
    } else if d == 1 {
        "1"
    } else if d == 2 {
        "2"
    } else if d == 3 {
        "3"
    } else if d == 4 {
        "4"
    } else if d == 5 {
        "5"
    } else if d == 6 {
        "6"
    } else if d == 7 {
        "7"
    } else if d == 8 {
        "8"
    } else {
        "9"
    };
    proof {
        reveal_strlit("0");
        reveal_strlit("1");
        reveal_strlit("2");
        reveal_strlit("3");
        reveal_strlit("4");
        reveal_strlit("5");
        reveal_strlit("6");
        reveal_strlit("7");
        reveal_strlit("8");
        reveal_strlit("9");
        assert(r@ =~= seq![digit(d as nat)]);
    }
    r
}

/// Renders a number in decimal.
pub fn u64_to_string(n: u64) -> (s: String)
    ensures
        s@ == dec_str(n as nat),
    decreases n,
{
    if n < 10 {
        digit_str(n).to_owned()
    } else {
        let front = u64_to_string(n / 10);
        let s = front.concat(digit_str(n % 10));
        proof {
            assert(s@ =~= dec_str(n as nat));
        }
        s
    }
}

/// The parts joined by the separator, in order.
pub open spec fn joined(parts: Seq<Seq<char>>, sep: Seq<char>) -> Seq<char>
    decreases parts.len(),
{
    if parts.len() == 0 {
        Seq::empty()
    } else if parts.len() == 1 {
        parts[0]
    } else {
        joined(parts.drop_last(), sep) + sep + parts.last()
    }
}

/// Joins the parts with the separator between each two.
pub fn join(parts: &Vec<String>, sep: &str) -> (r: String)
    ensures
        r@ == joined(views(parts@), sep@),
{
    let mut r = String::new();
    let mut i: usize = 0;
    proof {
        assert(views(parts@).take(0) =~= Seq::<Seq<char>>::empty());
    }
    while i < parts.len()
        invariant
            i <= parts@.len(),
            r@ == joined(views(parts@).take(i as int), sep@),
        decreases parts@.len() - i,
    {
        if i > 0 {
            r.append(sep);
        }
        r.append(parts[i].as_str());
        proof {
            assert(views(parts@).take(i + 1).drop_last() =~= views(parts@).take(i as int));
            assert(views(parts@).take(i + 1).last() == parts@[i as int]@);
        }
        i = i + 1;
    }
    proof {
        assert(views(parts@).take(parts@.len() as int) =~= views(parts@));
    }
    r
}

/// The views of a list of strings.
pub open spec fn views(parts: Seq<String>) -> Seq<Seq<char>> {
    Seq::new(parts.len(), |i: int| parts[i]@)
}

/// A platform path as the rest of the system passes it on: a path behind
/// the verbatim prefix loses the prefix; any other path goes behind the
/// file scheme.
pub open spec fn os_path_formatted(path: Seq<char>) -> Seq<char> {
    if path.len() >= 4 && path.take(4) == "\\\\?\\"@ {
        path.skip(4)
    } else {
        "file://"@ + path
    }
}

/// Strips the verbatim prefix from a path, or puts the path behind the
/// file scheme.
pub fn format_os_path(path: &str) -> (r: String)
    ensures
        r@ == os_path_formatted(path@),
{
    let prefix: &str = "\\\\?\\";
    proof {
        reveal_strlit("\\\\?\\");
    }
    let len = path.unicode_len();
    let plen = prefix.unicode_len();
    if len >= plen && matches_at(path, len, 0, prefix, plen) {
        let r = path.substring_char(plen, len).to_owned();
        proof {
            assert(path@.subrange(0, 4) =~= path@.take(4));
            assert(r@ =~= path@.skip(4));
        }
        r
    } else {
        let mut r = "file://".to_owned();
        r.append(path);
        proof {
            if len >= 4 {
                assert(path@.subrange(0, 4) =~= path@.take(4));
            }
        }
        r
    }
}

/// Copies a list of strings; the views are preserved exactly.
pub fn clone_strings(v: &Vec<String>) -> (r: Vec<String>)
    ensures
        views(r@) == views(v@),
{
    let mut r: Vec<String> = Vec::new();
    let mut i: usize = 0;
    while i < v.len()
        invariant
            i <= v@.len(),
            r@.len() == i as int,
            forall|j: int| 0 <= j < i ==> #[trigger] r@[j]@ == v@[j]@,
        decreases v@.len() - i,
    {
        let s = v[i].clone();
        r.push(s);
        i = i + 1;
    }
    proof {
        assert(views(r@) =~= views(v@));
    }
    r
}

/// The views of the key/value entries of a substitution list.
pub open spec fn pairs_view(entries: Seq<(String, String)>) -> Seq<(Seq<char>, Seq<char>)> {
    Seq::new(entries.len(), |i: int| (entries[i].0@, entries[i].1@))
}

/// A template key as it appears in the template text: the key in braces.
pub open spec fn braced(key: Seq<char>) -> Seq<char> {
    seq!['{'] + key + seq!['}']
}

/// The template with each entry substituted in turn: for each key/value
/// entry, every occurrence of the braced key is replaced by the value.
pub open spec fn filled(template: Seq<char>, entries: Seq<(Seq<char>, Seq<char>)>) -> Seq<char>
    decreases entries.len(),
{
    if entries.len() == 0 {
        template
    } else {
        filled(replaced(template, braced(entries[0].0), entries[0].1), entries.drop_first())
    }
}

/// Substitutes each `{key}` of the template by its value, entry by entry in
/// the order the entries were added.
pub fn fill_template(template: &str, values: &Vec<(String, String)>) -> (r: String)
    ensures
        r@ == filled(template@, pairs_view(values@)),
{
    let mut cur = template.to_owned();
    let mut i: usize = 0;
    proof {
        assert(pairs_view(values@).skip(0) =~= pairs_view(values@));
    }
    while i < values.len()
        invariant
            i <= values.len(),
            filled(template@, pairs_view(values@)) == filled(
                cur@,
                pairs_view(values@).skip(i as int),
            ),
        decreases values.len() - i,
    {
        let ghost rest = pairs_view(values@).skip(i as int);
        let mut pat = String::new();
        pat.append("{");
        pat.append(values[i].0.as_str());
        pat.append("}");
        proof {
            reveal_strlit("{");
            reveal_strlit("}");
            assert(pat@ =~= braced(values@[i as int].0@));
            assert(rest[0] == (values@[i as int].0@, values@[i as int].1@));
        }
        let next = replace_all(cur.as_str(), pat.as_str(), values[i].1.as_str());
        cur = next;
        proof {
            assert(rest.drop_first() =~= pairs_view(values@).skip(i + 1));
        }
        i = i + 1;
    }
    proof {
        assert(pairs_view(values@).skip(values@.len() as int) =~= Seq::empty());
    }
    cur
}

} // verus!
