//! Text helpers shared by every stage of the compiler: joining column lists,
//! decimal numbers and the positional measure aliases.
use vstd::prelude::*;

verus! {

/// The pieces of `parts`, in order, with `sep` between each two neighbours.
pub open spec fn joined(parts: Seq<Seq<char>>, sep: Seq<char>) -> Seq<char>
    decreases parts.len(),
{
    if parts.len() == 0 {
        Seq::empty()
    } else if parts.len() == 1 {
        parts[0]
    } else {
        joined(parts.drop_last(), sep) + sep + parts.last()
    }
}

/// The character sequences held by a list of strings.
pub open spec fn texts(v: Seq<String>) -> Seq<Seq<char>> {
    v.map_values(|s: String| s@)
}

pub proof fn lemma_texts_push(v: Seq<String>, s: String)
    ensures
        texts(v.push(s)) == texts(v).push(s@),
{
    assert(texts(v.push(s)) =~= texts(v).push(s@));
}

pub proof fn lemma_map_push<A, B>(s: Seq<A>, x: A, f: spec_fn(A) -> B)
    ensures
        s.push(x).map_values(f) == s.map_values(f).push(f(x)),
{
    assert(s.push(x).map_values(f) =~= s.map_values(f).push(f(x)));
}

pub proof fn lemma_subrange_push<A>(s: Seq<A>, i: int)
    requires
        0 <= i < s.len(),
    ensures
        s.subrange(0, i + 1) == s.subrange(0, i).push(s[i]),
{
    assert(s.subrange(0, i + 1) =~= s.subrange(0, i).push(s[i]));
}

/// The list separator used in every select, group-by and using list.
pub open spec fn comma() -> Seq<char> {
    ", "@
}

/// Relies on itertools::join: it writes the `Display` form of each item (for a
/// string, the string itself) with `sep` between neighbours, and "" for no item.
#[verifier::external_body]
pub(crate) fn join(parts: &Vec<String>, sep: &str) -> (r: String)
    ensures
        r@ == joined(texts(parts@), sep@),
{
    itertools::join(parts.iter(), sep)
}

/// Joins a column list with ", ".
pub(crate) fn join_comma(parts: &Vec<String>) -> (r: String)
    ensures
        r@ == joined(texts(parts@), comma()),
{
    join(parts, ", ")
}

/// The decimal digit `d`.
pub open spec fn digit_text(d: nat) -> Seq<char> {
    if d == 0 {
        "0"@
    } else if d == 1 {
        "1"@
    } else if d == 2 {
        "2"@
    } else if d == 3 {
        "3"@
    } else if d == 4 {
        "4"@
    } else if d == 5 {
        "5"@
    } else if d == 6 {
        "6"@
    } else if d == 7 {
        "7"@
    } else if d == 8 {
        "8"@
    } else {
        "9"@
    }
}

/// `n` written in decimal, without leading zeros.
pub open spec fn decimal(n: nat) -> Seq<char>
    decreases n,
{
    if n < 10 {
        digit_text(n)
    } else {
        decimal(n / 10) + digit_text(n % 10)
    }
}

fn digit_str(d: u64) -> (r: &'static str)
    requires
        d < 10,
    ensures
        r@ == digit_text(d as nat),
{
    if d == 0 {
        "0"
    } else if d == 1 {
        "1"
    } else if d == 2 {
        "2"
    } else if d == 3 {
        "3"
    } else if d == 4 {
        "4"
    } else if d == 5 {
        "5"
    } else if d == 6 {
        "6"
    } else if d == 7 {
        "7"
    } else if d == 8 {
        "8"
    } else {
        "9"
    }
}

/// Writes `n` in decimal.
pub fn decimal_string(n: u64) -> (r: String)
    ensures
        r@ == decimal(n as nat),
    decreases n,
{
    if n < 10 {
        String::from_str(digit_str(n))
    } else {
        let mut s = decimal_string(n / 10);
        s.append(digit_str(n % 10));
        s
    }
}

/// The pass-1 alias of the measure at position `i`: `m{i}`.
pub open spec fn measure_alias(i: nat) -> Seq<char> {
    "m"@ + decimal(i)
}

/// The pass-2 alias of the measure at position `i`: `final_m{i}`.
pub open spec fn final_alias(i: nat) -> Seq<char> {
    "final_"@ + measure_alias(i)
}

pub fn measure_alias_string(i: usize) -> (r: String)
    ensures
        r@ == measure_alias(i as nat),
{
    let mut s = String::from_str("m");
    let d = decimal_string(i as u64);
    s.append(d.as_str());
    s
}

pub fn final_alias_string(i: usize) -> (r: String)
    ensures
        r@ == final_alias(i as nat),
{
    let mut s = String::from_str("final_");
    let a = measure_alias_string(i);
    s.append(a.as_str());
    proof {
        assert(s@ == "final_"@ + measure_alias(i as nat));
    }
    s
}

/// Appends `piece` to `s`.
pub(crate) fn push(s: &mut String, piece: &str)
    ensures
        final(s)@ == old(s)@ + piece@,
{
    s.append(piece);
}

} // verus!
