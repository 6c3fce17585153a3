//! Game resources: block states, and the display names made from resource identifiers.
use vstd::prelude::*;

verus! {

/// A block state: the block's display name, its state id, its model and its collision
/// shape.
pub struct BlockState {
    pub name: String,
    pub id: u32,
    pub model: Option<String>,
    pub collision_shape: Option<u64>,
}

/// The text that `inflector`'s title case makes of `s`.
pub uninterp spec fn title_case(s: Seq<char>) -> Seq<char>;

/// Title-cases `s` with `inflector::cases::titlecase::to_title_case`: words are split at
/// characters that are not alphanumeric and at lower-to-upper case changes, each word
/// gets an upper-case first letter and lower-case rest, and words are joined by single
/// spaces. The result depends on the text alone.
#[verifier::external_body]
fn to_title_case(s: &str) -> (out: String)
    ensures
        out@ == title_case(s@),
{
    inflector::cases::titlecase::to_title_case(s)
}

/// The string of a list of characters, collected with `String::from_iter`.
#[verifier::external_body]
pub(crate) fn string_of_chars(chars: &Vec<char>) -> (s: String)
    ensures
        s@ == chars@,
{
    chars.iter().collect()
}

/// `s` with every occurrence of `pat`, taken from left to right without overlap, removed.
pub open spec fn remove_all(s: Seq<char>, pat: Seq<char>) -> Seq<char>
    decreases s.len(),
{
    if pat.len() == 0 || s.len() == 0 {
        s
    } else if pat.len() <= s.len() && s.take(pat.len() as int) == pat {
        remove_all(s.skip(pat.len() as int), pat)
    } else {
        seq![s[0]] + remove_all(s.drop_first(), pat)
    }
}

/// `s` with each underscore made a space.
pub open spec fn underscores_to_spaces(s: Seq<char>) -> Seq<char> {
    s.map_values(
        |c: char|
            if c == '_' {
                ' '
            } else {
                c
            },
    )
}

/// The namespace that resource identifiers carry.
pub open spec fn namespace() -> Seq<char> {
    seq!['m', 'i', 'n', 'e', 'c', 'r', 'a', 'f', 't', ':']
}

/// The display name of a resource identifier: without the `minecraft:` namespace, with
/// underscores as spaces, in title case.
pub open spec fn display_name(name: Seq<char>) -> Seq<char> {
    title_case(underscores_to_spaces(remove_all(name, namespace())))
}

/// The characters of `s`.
pub(crate) fn chars_of(s: &str) -> (v: Vec<char>)
    ensures
        v@ == s@,
{
    let mut v: Vec<char> = Vec::new();
    for c in it: s.chars()
        invariant
            v@ == it.seq().take(it.index() as int),
            it.seq() == s@,
    {
        v.push(c);
    }
    v
}

/// Whether `pat` occurs in `s` at `i`.
fn occurs_at(s: &Vec<char>, pat: &Vec<char>, i: usize) -> (b: bool)
    requires
        i <= s@.len(),
    ensures
        b == (pat@.len() <= s@.len() - i && s@.skip(i as int).take(pat@.len() as int) == pat@),
{
    if pat.len() > s.len() - i {
        return false;
    }
    let mut k: usize = 0;
    while k < pat.len()
        invariant
            i <= s@.len(),
            s@.len() == s.len(),
            pat@.len() <= s@.len() - i,
            k <= pat@.len(),
            forall|j: int| 0 <= j < k ==> s@[i + j] == pat@[j],
        decreases pat.len() - k,
    {
        if s[i + k] != pat[k] {
            assert(s@.skip(i as int).take(pat@.len() as int)[k as int] != pat@[k as int]);
            return false;
        }
        k += 1;
    }
    assert(s@.skip(i as int).take(pat@.len() as int) =~= pat@);
    true
}

/// `s` with every occurrence of `pat` removed, from left to right.
pub(crate) fn remove_all_exec(s: &Vec<char>, pat: &Vec<char>) -> (out: Vec<char>)
    requires
        pat@.len() > 0,
    ensures
        out@ == remove_all(s@, pat@),
{
    let mut out: Vec<char> = Vec::new();
    let mut i: usize = 0;
    assert(s@.skip(0) =~= s@);
    assert(out@ + remove_all(s@, pat@) =~= remove_all(s@, pat@));
    while i < s.len()
        invariant
            pat@.len() > 0,
            i <= s@.len(),
            out@ + remove_all(s@.skip(i as int), pat@) == remove_all(s@, pat@),
        decreases s.len() - i,
    {
        let ghost rest = s@.skip(i as int);
        if occurs_at(s, pat, i) {
            proof {
                assert(rest.skip(pat@.len() as int) =~= s@.skip(i + pat@.len()));
            }
            i += pat.len();
        } else {
            proof {
                assert(rest.drop_first() =~= s@.skip(i + 1));
                assert(out@.push(s@[i as int]) + remove_all(s@.skip(i + 1), pat@) =~= out@ + (
                seq![rest[0]] + remove_all(rest.drop_first(), pat@)));
            }
            out.push(s[i]);
            i += 1;
        }
    }
    proof {
        assert(out@ + remove_all(s@.skip(i as int), pat@) =~= out@);
    }
    out
}

/// The display name of a resource identifier: `minecraft:` removed, underscores made
/// spaces, then title case.
pub fn format_name(name: &str) -> (out: String)
    ensures
        out@ == display_name(name@),
{
    let chars = chars_of(name);
    let pat = vec!['m', 'i', 'n', 'e', 'c', 'r', 'a', 'f', 't', ':'];
    assert(pat@ =~= namespace());
    let stripped = remove_all_exec(&chars, &pat);
    let mut spaced: Vec<char> = Vec::new();
    for i in 0..stripped.len()
        invariant
            spaced@ == underscores_to_spaces(stripped@.take(i as int)),
    {
        let c = stripped[i];
        spaced.push(
            if c == '_' {
                ' '
            } else {
                c
            },
        );
        proof {
            assert(underscores_to_spaces(stripped@.take(i + 1)) =~= underscores_to_spaces(
                stripped@.take(i as int),
            ).push(spaced@[i as int]));
        }
    }
    proof {
        assert(stripped@.take(stripped@.len() as int) =~= stripped@);
    }
    let joined = string_of_chars(&spaced);
    to_title_case(joined.as_str())
}

} // verus!
