//! Generating the Rust sources of the block and entity tables from the game's data: each
//! entry gets its display name, entries are keyed by id with the last one for an id kept,
//! and the table is written out in id order.
use vstd::prelude::*;

use crate::resources::{display_name, format_name, string_of_chars};

verus! {

/// A block state of the generated table: its id and its block's display name.
#[derive(Debug)]
pub struct BlockState {
    pub state_id: i32,
    pub name: String,
}

/// An entity type of the generated table: its id and display name.
#[derive(Debug)]
pub struct EntityType {
    pub id: i32,
    pub name: String,
}

/// The name last given to `id` in `entries`.
pub open spec fn last_name(entries: Seq<(i32, Seq<char>)>, id: i32) -> Option<Seq<char>>
    decreases entries.len(),
{
    if entries.len() == 0 {
        None
    } else if entries.last().0 == id {
        Some(entries.last().1)
    } else {
        last_name(entries.drop_last(), id)
    }
}

/// Whether the ids of a table are strictly increasing.
pub open spec fn ids_increasing(table: Seq<(i32, Seq<char>)>) -> bool {
    forall|i: int, j: int| 0 <= i < j < table.len() ==> table[i].0 < table[j].0
}

/// Whether `table` is the table of `entries`: in increasing id order, one row for each id
/// the entries give, with the name last given to it.
pub open spec fn table_of(table: Seq<(i32, Seq<char>)>, entries: Seq<(i32, Seq<char>)>) -> bool {
    &&& ids_increasing(table)
    &&& forall|k: int| 0 <= k < table.len() ==> last_name(entries, #[trigger] table[k].0) == Some(
        table[k].1,
    )
    &&& forall|id: i32| #[trigger] last_name(entries, id) is Some ==> exists|k: int|
        0 <= k < table.len() && table[k].0 == id
}

/// The rows of a table as plain values.
pub open spec fn rows(table: Seq<(i32, Vec<char>)>) -> Seq<(i32, Seq<char>)> {
    table.map_values(|r: (i32, Vec<char>)| (r.0, r.1@))
}

/// Puts `(id, name)` into a table in increasing id order, in place of a row with the same
/// id.
#[verifier::spinoff_prover]
#[verifier::rlimit(40)]
fn upsert(table: &mut Vec<(i32, Vec<char>)>, id: i32, name: Vec<char>)
    requires
        ids_increasing(rows(old(table)@)),
    ensures
        ids_increasing(rows(final(table)@)),
        forall|k: int|
            0 <= k < final(table)@.len() ==> (#[trigger] rows(final(table)@)[k].0 == id
                ==> rows(final(table)@)[k].1 == name@),
        forall|k: int|
            0 <= k < final(table)@.len() && #[trigger] rows(final(table)@)[k].0 != id ==> exists|
                j: int,
            |
                0 <= j < old(table)@.len() && rows(old(table)@)[j] == rows(final(table)@)[k],
        forall|j: int|
            0 <= j < old(table)@.len() && #[trigger] rows(old(table)@)[j].0 != id ==> exists|
                k: int,
            |
                0 <= k < final(table)@.len() && rows(final(table)@)[k] == rows(old(table)@)[j],
        exists|k: int| 0 <= k < final(table)@.len() && rows(final(table)@)[k].0 == id,
{
    let ghost before = rows(table@);
    let mut i: usize = 0;
    while i < table.len() && table[i].0 < id
        invariant
            i <= table@.len(),
            rows(table@) == before,
            ids_increasing(before),
            forall|k: int| 0 <= k < i ==> before[k].0 < id,
        decreases table.len() - i,
    {
        i += 1;
    }
    if i < table.len() && table[i].0 == id {
        let ghost n = name@;
        table.set(i, (id, name));
        proof {
            assert(rows(table@) =~= before.update(i as int, (id, n)));
            assert(before[i as int].0 == id);
            assert forall|a: int, b: int| 0 <= a < b < table@.len() implies rows(table@)[a].0 < rows(
                table@,
            )[b].0 by {
                assert(before[a].0 < before[b].0);
            }
            assert forall|k: int| 0 <= k < table@.len() && #[trigger] rows(table@)[k].0 == id implies rows(
                table@,
            )[k].1 == n by {
                if k != i {
                    if k < i {
                        assert(before[k].0 < before[i as int].0);
                    } else {
                        assert(before[i as int].0 < before[k].0);
                    }
                }
            }
            assert forall|k: int|
                0 <= k < table@.len() && #[trigger] rows(table@)[k].0 != id implies exists|j: int|
                0 <= j < before.len() && before[j] == rows(table@)[k] by {
                assert(before[k] == rows(table@)[k]);
            }
            assert forall|j: int| 0 <= j < before.len() && #[trigger] before[j].0 != id implies exists|
                k: int,
            |
                0 <= k < table@.len() && rows(table@)[k] == before[j] by {
                assert(before[j] == rows(table@)[j]);
            }
            assert(rows(table@)[i as int].0 == id);
        }
    } else {
        let ghost n = name@;
        table.insert(i, (id, name));
        proof {
            assert(rows(table@) =~= before.insert(i as int, (id, n)));
            assert(i < before.len() ==> before[i as int].0 > id);
            assert forall|a: int, b: int| 0 <= a < b < table@.len() implies rows(table@)[a].0 < rows(
                table@,
            )[b].0 by {
                if b < i {
                    assert(before[a].0 < before[b].0);
                } else if b == i {
                    assert(before[a].0 < id);
                } else if a < i {
                    assert(before[a].0 < id);
                    assert(before[i as int].0 <= before[b - 1].0);
                } else if a == i {
                    assert(before[i as int].0 <= before[b - 1].0);
                } else {
                    assert(before[a - 1].0 < before[b - 1].0);
                }
            }
            assert forall|k: int| 0 <= k < table@.len() && #[trigger] rows(table@)[k].0 == id implies rows(
                table@,
            )[k].1 == n by {
                if k < i {
                    assert(before[k].0 < id);
                } else if k > i {
                    assert(before[i as int].0 <= before[k - 1].0);
                }
            }
            assert forall|k: int|
                0 <= k < table@.len() && #[trigger] rows(table@)[k].0 != id implies exists|j: int|
                0 <= j < before.len() && before[j] == rows(table@)[k] by {
                if k < i {
                    assert(before[k] == rows(table@)[k]);
                } else {
                    assert(before[k - 1] == rows(table@)[k]);
                }
            }
            assert forall|j: int| 0 <= j < before.len() && #[trigger] before[j].0 != id implies exists|
                k: int,
            |
                0 <= k < table@.len() && rows(table@)[k] == before[j] by {
                if j < i {
                    assert(before[j] == rows(table@)[j]);
                } else {
                    assert(before[j] == rows(table@)[j + 1]);
                }
            }
            assert(rows(table@)[i as int].0 == id);
        }
    }
}

/// The name last given to an id, once one more entry is added.
proof fn lemma_last_name_push(entries: Seq<(i32, Seq<char>)>, e: (i32, Seq<char>), id: i32)
    ensures
        last_name(entries.push(e), id) == (if e.0 == id {
            Some(e.1)
        } else {
            last_name(entries, id)
        }),
{
    assert(entries.push(e).drop_last() =~= entries);
}

/// Putting one more entry into the table of some entries gives the table of the longer
/// list of entries.
proof fn lemma_table_step(
    before: Seq<(i32, Seq<char>)>,
    after: Seq<(i32, Seq<char>)>,
    entries: Seq<(i32, Seq<char>)>,
    id: i32,
    name: Seq<char>,
)
    requires
        table_of(before, entries),
        ids_increasing(after),
        forall|k: int| 0 <= k < after.len() ==> (#[trigger] after[k].0 == id ==> after[k].1 == name),
        forall|k: int|
            0 <= k < after.len() && #[trigger] after[k].0 != id ==> exists|j: int|
                0 <= j < before.len() && before[j] == after[k],
        forall|j: int|
            0 <= j < before.len() && #[trigger] before[j].0 != id ==> exists|k: int|
                0 <= k < after.len() && after[k] == before[j],
        exists|k: int| 0 <= k < after.len() && after[k].0 == id,
    ensures
        table_of(after, entries.push((id, name))),
{
    let longer = entries.push((id, name));
    assert forall|k: int| 0 <= k < after.len() implies last_name(longer, #[trigger] after[k].0)
        == Some(after[k].1) by {
        lemma_last_name_push(entries, (id, name), after[k].0);
        if after[k].0 != id {
            let j = choose|j: int| 0 <= j < before.len() && before[j] == after[k];
            assert(last_name(entries, before[j].0) == Some(before[j].1));
        }
    }
    assert forall|x: i32| #[trigger] last_name(longer, x) is Some implies exists|k: int|
        0 <= k < after.len() && after[k].0 == x by {
        lemma_last_name_push(entries, (id, name), x);
        if x != id {
            assert(last_name(entries, x) is Some);
            let j = choose|j: int| 0 <= j < before.len() && before[j].0 == x;
            assert(before[j].0 != id);
            let k = choose|k: int| 0 <= k < after.len() && after[k] == before[j];
            assert(after[k].0 == x);
        }
    }
}

/// Builds the table of `entries`: increasing ids, each with the name last given to it.
pub fn table_from(entries: &Vec<(i32, Vec<char>)>) -> (table: Vec<(i32, Vec<char>)>)
    ensures
        table_of(rows(table@), rows(entries@)),
{
    let mut table: Vec<(i32, Vec<char>)> = Vec::new();
    assert(rows(entries@).take(0) =~= Seq::<(i32, Seq<char>)>::empty());
    for idx in 0..entries.len()
        invariant
            table_of(rows(table@), rows(entries@).take(idx as int)),
    {
        let id = entries[idx].0;
        let name = entries[idx].1.clone();
        assert(name@ =~= entries@[idx as int].1@);
        let ghost before = rows(table@);
        let ghost n = name@;
        upsert(&mut table, id, name);
        proof {
            lemma_table_step(before, rows(table@), rows(entries@).take(idx as int), id, n);
            assert(rows(entries@).take(idx + 1) =~= rows(entries@).take(idx as int).push((id, n)));
        }
    }
    assert(rows(entries@).take(entries@.len() as int) =~= rows(entries@));
    table
}

/// The character of a decimal digit.
pub open spec fn digit_char(d: int) -> char {
    if d == 0 {
        '0'
    } else if d == 1 {
        '1'
    } else if d == 2 {
        '2'
    } else if d == 3 {
        '3'
    } else if d == 4 {
        '4'
    } else if d == 5 {
        '5'
    } else if d == 6 {
        '6'
    } else if d == 7 {
        '7'
    } else if d == 8 {
        '8'
    } else {
        '9'
    }
}

/// The decimal digits of `n`, most significant first.
pub open spec fn digits(n: nat) -> Seq<char>
    decreases n,
{
    if n < 10 {
        seq![digit_char(n as int)]
    } else {
        digits(n / 10).push(digit_char((n % 10) as int))
    }
}

/// `n` written in decimal, with a minus sign when negative.
pub open spec fn decimal(n: int) -> Seq<char> {
    if n < 0 {
        seq!['-'] + digits((-n) as nat)
    } else {
        digits(n as nat)
    }
}

/// The character of the decimal digit `d`.
fn digit_of(d: u64) -> (c: char)
    requires
        d < 10,
    ensures
        c == digit_char(d as int),
{
    match d {
        0 => '0',
        1 => '1',
        2 => '2',
        3 => '3',
        4 => '4',
        5 => '5',
        6 => '6',
        7 => '7',
        8 => '8',
        _ => '9',
    }
}

/// Appends the decimal digits of `n`.
fn push_digits(out: &mut Vec<char>, n: u64)
    ensures
        final(out)@ == old(out)@ + digits(n as nat),
    decreases n,
{
    if n >= 10 {
        push_digits(out, n / 10);
    }
    let ghost mid = out@;
    out.push(digit_of(n % 10));
    proof {
        if n >= 10 {
            assert(out@ =~= old(out)@ + digits(n as nat));
        } else {
            assert(out@ =~= old(out)@ + digits(n as nat));
        }
    }
}

/// Appends `n` in decimal.
fn push_decimal(out: &mut Vec<char>, n: i64)
    ensures
        final(out)@ == old(out)@ + decimal(n as int),
{
    if n < 0 {
        out.push('-');
        let m = (-(n + 1)) as u64 + 1;
        let ghost mid = out@;
        push_digits(out, m);
        assert(out@ =~= old(out)@ + decimal(n as int));
    } else {
        push_digits(out, n as u64);
    }
}

/// Appends the characters of `chars`.
fn push_chars(out: &mut Vec<char>, chars: &Vec<char>)
    ensures
        final(out)@ == old(out)@ + chars@,
{
    let ghost start = out@;
    for k in 0..chars.len()
        invariant
            out@ == start + chars@.take(k as int),
    {
        out.push(chars[k]);
        proof {
            assert(chars@.take(k + 1) =~= chars@.take(k as int).push(chars@[k as int]));
        }
    }
    assert(chars@.take(chars@.len() as int) =~= chars@);
}

/// Appends the characters of `s`.
fn push_str(out: &mut Vec<char>, s: &str)
    ensures
        final(out)@ == old(out)@ + s@,
{
    let ghost start = out@;
    for c in it: s.chars()
        invariant
            out@ == start + it.seq().take(it.index() as int),
            it.seq() == s@,
    {
        out.push(c);
    }
    assert(s@.take(s@.len() as int) =~= s@);
}

/// A row of the generated block table.
pub open spec fn block_line(row: (i32, Seq<char>)) -> Seq<char> {
    "\tBlockState{ state_id: "@ + decimal(row.0 as int) + ", name: \""@ + row.1 + "\" }, \n"@
}

/// The rows of the generated block table.
pub open spec fn block_lines(table: Seq<(i32, Seq<char>)>) -> Seq<char>
    decreases table.len(),
{
    if table.len() == 0 {
        Seq::empty()
    } else {
        block_lines(table.drop_last()) + block_line(table.last())
    }
}

/// The text before the number of blocks in the generated block table.
pub open spec fn blocks_head() -> Seq<char> {
    "\n    #[derive(Debug)]\npub struct BlockState {\n    pub state_id: i32,\n    pub name: &'static str,\n}\n\npub const BLOCKS: [BlockState; "@
}

/// The source of the generated block table: the `BlockState` type, then the table's rows
/// in the table's order.
pub open spec fn blocks_source(table: Seq<(i32, Seq<char>)>) -> Seq<char> {
    blocks_head() + decimal(table.len() as int) + "] = [\n"@ + block_lines(table) + "];"@
}

/// Writes the source of the block table `table`.
pub fn blocks_source_of(table: &Vec<(i32, Vec<char>)>) -> (out: String)
    ensures
        out@ == blocks_source(rows(table@)),
{
    let mut text: Vec<char> = Vec::new();
    push_str(
        &mut text,
        "\n    #[derive(Debug)]\npub struct BlockState {\n    pub state_id: i32,\n    pub name: &'static str,\n}\n\npub const BLOCKS: [BlockState; ",
    );
    push_digits(&mut text, table.len() as u64);
    push_str(&mut text, "] = [\n");
    let ghost head = text@;
    for i in 0..table.len()
        invariant
            text@ == head + block_lines(rows(table@).take(i as int)),
    {
        let ghost before = text@;
        push_str(&mut text, "\tBlockState{ state_id: ");
        push_decimal(&mut text, table[i].0 as i64);
        push_str(&mut text, ", name: \"");
        push_chars(&mut text, &table[i].1);
        push_str(&mut text, "\" }, \n");
        proof {
            assert(rows(table@).take(i + 1).drop_last() =~= rows(table@).take(i as int));
            assert(text@ =~= before + block_line(rows(table@)[i as int]));
        }
    }
    push_str(&mut text, "];");
    proof {
        assert(rows(table@).take(table@.len() as int) =~= rows(table@));
        assert(text@ =~= blocks_source(rows(table@)));
    }
    string_of_chars(&text)
}

/// Whether `c` is a decimal digit.
pub open spec fn is_digit(c: char) -> bool {
    c == '0' || c == '1' || c == '2' || c == '3' || c == '4' || c == '5' || c == '6' || c == '7'
        || c == '8' || c == '9'
}

/// The value of a decimal digit.
pub open spec fn digit_value(c: char) -> int {
    if c == '1' {
        1
    } else if c == '2' {
        2
    } else if c == '3' {
        3
    } else if c == '4' {
        4
    } else if c == '5' {
        5
    } else if c == '6' {
        6
    } else if c == '7' {
        7
    } else if c == '8' {
        8
    } else if c == '9' {
        9
    } else {
        0
    }
}

/// The value of a run of decimal digits.
pub open spec fn digits_value(s: Seq<char>) -> int
    decreases s.len(),
{
    if s.len() == 0 {
        0
    } else {
        digits_value(s.drop_last()) * 10 + digit_value(s.last())
    }
}

/// The digits of a number as text, after its sign.
pub open spec fn unsigned_part(s: Seq<char>) -> Seq<char> {
    if s.len() > 0 && (s[0] == '-' || s[0] == '+') {
        s.drop_first()
    } else {
        s
    }
}

/// The `i32` that `s` writes, as `str::parse` reads it: an optional sign, then one or more
/// decimal digits, of a value within the type's range.
pub open spec fn parsed_i32(s: Seq<char>) -> Option<i32> {
    let body = unsigned_part(s);
    let v = if s.len() > 0 && s[0] == '-' {
        -digits_value(body)
    } else {
        digits_value(body)
    };
    if body.len() > 0 && (forall|i: int| 0 <= i < body.len() ==> is_digit(#[trigger] body[i]))
        && i32::MIN <= v <= i32::MAX {
        Some(v as i32)
    } else {
        None
    }
}

/// The value of a decimal digit, if `c` is one.
fn digit_of_char(c: char) -> (d: Option<i64>)
    ensures
        d is Some <==> is_digit(c),
        d matches Some(v) ==> v == digit_value(c),
{
    match c {
        '0' => Some(0),
        '1' => Some(1),
        '2' => Some(2),
        '3' => Some(3),
        '4' => Some(4),
        '5' => Some(5),
        '6' => Some(6),
        '7' => Some(7),
        '8' => Some(8),
        '9' => Some(9),
        _ => None,
    }
}

/// A digit run's value is at least as large as that of any shorter start of it.
proof fn lemma_digits_value_nonneg(s: Seq<char>)
    ensures
        digits_value(s) >= 0,
    decreases s.len(),
{
    if s.len() > 0 {
        lemma_digits_value_nonneg(s.drop_last());
    }
}

/// Reads an `i32` written in decimal, with an optional sign, as `str::parse` does.
pub fn parse_i32(s: &Vec<char>) -> (r: Option<i32>)
    ensures
        r == parsed_i32(s@),
{
    let cap: i64 = 0x8000_0001;
    let mut start: usize = 0;
    let mut neg = false;
    if s.len() > 0 && (s[0] == '-' || s[0] == '+') {
        neg = s[0] == '-';
        start = 1;
    }
    let ghost body = unsigned_part(s@);
    assert(body =~= s@.subrange(start as int, s@.len() as int));
    if start >= s.len() {
        return None;
    }
    let mut acc: i64 = 0;
    let mut i = start;
    while i < s.len()
        invariant
            start <= i <= s@.len(),
            body == unsigned_part(s@),
            start == s@.len() - body.len(),
            body =~= s@.subrange(start as int, s@.len() as int),
            forall|j: int| start <= j < i ==> is_digit(#[trigger] s@[j]),
            0 <= acc <= cap,
            cap == 0x8000_0001,
            acc == (if digits_value(s@.subrange(start as int, i as int)) < cap {
                digits_value(s@.subrange(start as int, i as int))
            } else {
                cap as int
            }),
        decreases s.len() - i,
    {
        let d = match digit_of_char(s[i]) {
            Some(d) => d,
            None => {
                proof {
                    let k = i - start;
                    assert(body[k] == s@[i as int]);
                    assert(!is_digit(body[k]));
                    assert(0 <= k < body.len());
                }
                return None;
            },
        };
        let ghost prefix = s@.subrange(start as int, i as int);
        proof {
            lemma_digits_value_nonneg(prefix);
            assert(s@.subrange(start as int, i + 1).drop_last() =~= prefix);
            assert(s@.subrange(start as int, i + 1).last() == s@[i as int]);
        }
        if acc == cap {
            acc = cap;
        } else {
            acc = acc * 10 + d;
            if acc > cap {
                acc = cap;
            }
        }
        i += 1;
    }
    proof {
        assert(s@.subrange(start as int, s@.len() as int) =~= body);
        assert forall|j: int| 0 <= j < body.len() implies is_digit(#[trigger] body[j]) by {
            assert(body[j] == s@[start + j]);
        }
    }
    let v = if neg {
        -acc
    } else {
        acc
    };
    if v < -2147483648 || v > 2147483647 {
        None
    } else {
        Some(v as i32)
    }
}

/// The entries of one block: each of its state ids that reads as a number other than
/// `-1`, with the block's display name.
pub open spec fn state_rows(name: Seq<char>, ids: Seq<String>) -> Seq<(i32, Seq<char>)>
    decreases ids.len(),
{
    if ids.len() == 0 {
        Seq::empty()
    } else {
        let rest = state_rows(name, ids.drop_last());
        match parsed_i32(ids.last()@) {
            Some(v) => if v == -1 {
                rest
            } else {
                rest.push((v, name))
            },
            None => rest,
        }
    }
}

/// The entries of a list of blocks, each given by its identifier and its state ids, in
/// order.
pub open spec fn block_rows(blocks: Seq<(String, Vec<String>)>) -> Seq<(i32, Seq<char>)>
    decreases blocks.len(),
{
    if blocks.len() == 0 {
        Seq::empty()
    } else {
        block_rows(blocks.drop_last()) + state_rows(
            display_name(blocks.last().0@),
            blocks.last().1@,
        )
    }
}

/// The entries of a list of blocks: the state ids that read as numbers other than `-1`,
/// each with its block's display name.
pub fn block_entries(blocks: &Vec<(String, Vec<String>)>) -> (entries: Vec<(i32, Vec<char>)>)
    ensures
        rows(entries@) == block_rows(blocks@),
{
    let mut entries: Vec<(i32, Vec<char>)> = Vec::new();
    for b in 0..blocks.len()
        invariant
            rows(entries@) == block_rows(blocks@.take(b as int)),
    {
        let name = format_name(blocks[b].0.as_str());
        let name_chars = chars_of_string(&name);
        let ids = &blocks[b].1;
        let ghost before = rows(entries@);
        for k in 0..ids.len()
            invariant
                rows(entries@) == before + state_rows(name_chars@, ids@.take(k as int)),
        {
            let digits = chars_of_string(&ids[k]);
            proof {
                assert(ids@.take(k + 1).drop_last() =~= ids@.take(k as int));
            }
            match parse_i32(&digits) {
                Some(v) => {
                    if v != -1 {
                        let ghost mid = rows(entries@);
                        entries.push((v, name_chars.clone()));
                        proof {
                            assert(rows(entries@) =~= mid.push((v, name_chars@)));
                        }
                    }
                },
                None => {},
            }
        }
        proof {
            assert(ids@.take(ids@.len() as int) =~= ids@);
            assert(blocks@.take(b + 1).drop_last() =~= blocks@.take(b as int));
        }
    }
    proof {
        assert(blocks@.take(blocks@.len() as int) =~= blocks@);
    }
    entries
}

/// The characters of a string.
fn chars_of_string(s: &String) -> (v: Vec<char>)
    ensures
        v@ == s@,
{
    let mut v: Vec<char> = Vec::new();
    push_str(&mut v, s.as_str());
    v
}

/// The block table of a list of blocks, in increasing id order.
pub fn get_blocks_map(blocks: &Vec<(String, Vec<String>)>) -> (table: Vec<BlockState>)
    ensures
        table_of(table@.map_values(|b: BlockState| (b.state_id, b.name@)), block_rows(blocks@)),
{
    let rows_table = table_from(&block_entries(blocks));
    let mut out: Vec<BlockState> = Vec::new();
    for i in 0..rows_table.len()
        invariant
            out@.map_values(|b: BlockState| (b.state_id, b.name@)) == rows(rows_table@).take(
                i as int,
            ),
    {
        let name = string_of_chars(&rows_table[i].1);
        let ghost before = out@;
        let ghost nm = name@;
        out.push(BlockState { state_id: rows_table[i].0, name });
        proof {
            let lhs = out@.map_values(|b: BlockState| (b.state_id, b.name@));
            let rhs = rows(rows_table@).take(i + 1);
            assert(before.map_values(|b: BlockState| (b.state_id, b.name@)).len() == before.len());
            assert(before.len() == i);
            assert(rows(rows_table@).len() == rows_table@.len());
            assert(lhs.len() == rhs.len());
            assert forall|k: int| 0 <= k < lhs.len() implies lhs[k] == rhs[k] by {
                if k < i {
                    assert(out@[k] == before[k]);
                    assert(before.map_values(|b: BlockState| (b.state_id, b.name@))[k] == lhs[k]);
                } else {
                    assert(out@[k].name@ == nm);
                }
            }
            assert(lhs =~= rhs);
        }
    }
    proof {
        assert(rows(rows_table@).take(rows_table@.len() as int) =~= rows(rows_table@));
    }
    out
}

/// The source of the block table of a list of blocks: the table in increasing id order,
/// each id with the display name of the last block to give it.
pub fn get_blocks_string(blocks: &Vec<(String, Vec<String>)>) -> (out: String)
    ensures
        exists|t: Seq<(i32, Seq<char>)>| table_of(t, block_rows(blocks@)) && out@ == blocks_source(
            t,
        ),
{
    let table = table_from(&block_entries(blocks));
    blocks_source_of(&table)
}

/// The entries of a list of entities, each given by its identifier and its numeric id:
/// the id taken as an `i32`, with the entity's display name.
pub open spec fn entity_rows(entities: Seq<(String, i64)>) -> Seq<(i32, Seq<char>)> {
    entities.map_values(|e: (String, i64)| (e.1 as i32, display_name(e.0@)))
}

/// A row of the generated entity table.
pub open spec fn entity_line(row: (i32, Seq<char>)) -> Seq<char> {
    "\t"@ + decimal(row.0 as int) + "i32 => EntityType{ id: "@ + decimal(row.0 as int)
        + ", name: \""@ + row.1 + "\" },\n"@
}

/// The rows of the generated entity table.
pub open spec fn entity_lines(table: Seq<(i32, Seq<char>)>) -> Seq<char>
    decreases table.len(),
{
    if table.len() == 0 {
        Seq::empty()
    } else {
        entity_lines(table.drop_last()) + entity_line(table.last())
    }
}

/// The text before the rows of the generated entity table.
pub open spec fn entities_head() -> Seq<char> {
    "\nuse phf::phf_map;\n\n#[derive(Debug)]\npub struct EntityType {\n    pub id: i32,\n    pub name: &'static str,\n}\n\npub static ENTITIES: phf::Map<i32, EntityType> = phf_map! {\n"@
}

/// The source of the generated entity table: the `EntityType` type, then a map from id
/// to entity in the table's order.
pub open spec fn entities_source(table: Seq<(i32, Seq<char>)>) -> Seq<char> {
    entities_head() + entity_lines(table) + "};"@
}

/// The entries of a list of entities.
pub fn entity_entries(entities: &Vec<(String, i64)>) -> (entries: Vec<(i32, Vec<char>)>)
    ensures
        rows(entries@) == entity_rows(entities@),
{
    let mut entries: Vec<(i32, Vec<char>)> = Vec::new();
    for i in 0..entities.len()
        invariant
            rows(entries@) == entity_rows(entities@.take(i as int)),
    {
        let name = format_name(entities[i].0.as_str());
        let name_chars = chars_of_string(&name);
        let ghost before = rows(entries@);
        entries.push((entities[i].1 as i32, name_chars));
        proof {
            assert(entity_rows(entities@.take(i + 1)) =~= entity_rows(entities@.take(i as int)).push(
                (entities@[i as int].1 as i32, display_name(entities@[i as int].0@)),
            ));
            assert(rows(entries@) =~= before.push(
                (entities@[i as int].1 as i32, display_name(entities@[i as int].0@)),
            ));
        }
    }
    proof {
        assert(entities@.take(entities@.len() as int) =~= entities@);
    }
    entries
}

/// Writes the source of the entity table `table`.
fn entities_source_of(table: &Vec<(i32, Vec<char>)>) -> (out: String)
    ensures
        out@ == entities_source(rows(table@)),
{
    let mut text: Vec<char> = Vec::new();
    push_str(
        &mut text,
        "\nuse phf::phf_map;\n\n#[derive(Debug)]\npub struct EntityType {\n    pub id: i32,\n    pub name: &'static str,\n}\n\npub static ENTITIES: phf::Map<i32, EntityType> = phf_map! {\n",
    );
    let ghost head = text@;
    for i in 0..table.len()
        invariant
            text@ == head + entity_lines(rows(table@).take(i as int)),
    {
        let ghost before = text@;
        push_str(&mut text, "\t");
        push_decimal(&mut text, table[i].0 as i64);
        push_str(&mut text, "i32 => EntityType{ id: ");
        push_decimal(&mut text, table[i].0 as i64);
        push_str(&mut text, ", name: \"");
        push_chars(&mut text, &table[i].1);
        push_str(&mut text, "\" },\n");
        proof {
            assert(rows(table@).take(i + 1).drop_last() =~= rows(table@).take(i as int));
            assert(text@ =~= before + entity_line(rows(table@)[i as int]));
        }
    }
    push_str(&mut text, "};");
    proof {
        assert(rows(table@).take(table@.len() as int) =~= rows(table@));
        assert(text@ =~= entities_source(rows(table@)));
    }
    string_of_chars(&text)
}

/// The source of the entity table of a list of entities: the table in increasing id
/// order, each id with the display name of the last entity to give it.
pub fn get_entities_string(entities: &Vec<(String, i64)>) -> (out: String)
    ensures
        exists|t: Seq<(i32, Seq<char>)>| table_of(t, entity_rows(entities@)) && out@
            == entities_source(t),
{
    let table = table_from(&entity_entries(entities));
    entities_source_of(&table)
}

} // verus!
