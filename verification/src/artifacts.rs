//! The names under which captured notifications lie in a directory.

use vstd::prelude::*;

use crate::sort::{lemma_order, order_of, sort};
use crate::text::{
    append_decimal, chars_of, decimal, decimal_reads_back, is_digit, is_number, lemma_split_at,
    lemma_split_none, occurs_at, parse_u64, parsed, part, split, split_by, texts,
};

verus! {

/// The name of the file with the commit of a block.
pub open spec fn commit_name(block: u64) -> Seq<char> {
    "commit_"@ + decimal(block as nat) + "_"@ + decimal(block as nat) + ".bincode"@
}

/// The name of the file with the reorg that replaced one range of blocks by
/// another.
pub open spec fn reorg_name(range: (u64, u64, u64, u64)) -> Seq<char> {
    "reorg_"@ + decimal(range.0 as nat) + "_"@ + decimal(range.1 as nat) + "_to_"@ + decimal(
        range.2 as nat,
    ) + "_"@ + decimal(range.3 as nat) + ".bincode"@
}

/// The name of the file with the revert of a range of blocks.
pub open spec fn revert_name(start: u64, end: u64) -> Seq<char> {
    "revert_"@ + decimal(start as nat) + "_"@ + decimal(end as nat) + ".bincode"@
}

pub fn commit_file_name(block: u64) -> (name: String)
    ensures
        name@ == commit_name(block),
{
    let mut name = String::new();
    name.append("commit_");
    append_decimal(&mut name, block);
    name.append("_");
    append_decimal(&mut name, block);
    name.append(".bincode");
    assert(name@ =~= commit_name(block));
    name
}

pub fn reorg_file_name(old_start: u64, old_end: u64, new_start: u64, new_end: u64) -> (name: String)
    ensures
        name@ == reorg_name((old_start, old_end, new_start, new_end)),
{
    let mut name = String::new();
    name.append("reorg_");
    append_decimal(&mut name, old_start);
    name.append("_");
    append_decimal(&mut name, old_end);
    name.append("_to_");
    append_decimal(&mut name, new_start);
    name.append("_");
    append_decimal(&mut name, new_end);
    name.append(".bincode");
    assert(name@ =~= reorg_name((old_start, old_end, new_start, new_end)));
    name
}

pub fn revert_file_name(start: u64, end: u64) -> (name: String)
    ensures
        name@ == revert_name(start, end),
{
    let mut name = String::new();
    name.append("revert_");
    append_decimal(&mut name, start);
    name.append("_");
    append_decimal(&mut name, end);
    name.append(".bincode");
    assert(name@ =~= revert_name(start, end));
    name
}

pub open spec fn starts_with(text: Seq<char>, prefix: Seq<char>) -> bool {
    occurs_at(text, prefix, 0)
}

pub open spec fn ends_with(text: Seq<char>, suffix: Seq<char>) -> bool {
    suffix.len() <= text.len() && text.skip(text.len() - suffix.len()) == suffix
}

/// The block whose commit the file of this name holds, if it is such a file:
/// the number between the prefix and the next underscore.
pub open spec fn commit_block(name: Seq<char>) -> Option<u64> {
    if starts_with(name, "commit_"@) && ends_with(name, ".bincode"@) {
        parsed(split_by(name.skip("commit_"@.len() as int), "_"@)[0])
    } else {
        None
    }
}

/// The two numbers that an underscore separates.
pub open spec fn range_of(text: Seq<char>) -> Option<(u64, u64)> {
    let parts = split_by(text, "_"@);
    if parts.len() == 2 {
        match (parsed(parts[0]), parsed(parts[1])) {
            (Some(start), Some(end)) => Some((start, end)),
            _ => None,
        }
    } else {
        None
    }
}

/// The two ranges that `_to_` separates.
pub open spec fn ranges_of(text: Seq<char>) -> Option<(u64, u64, u64, u64)> {
    let parts = split_by(text, "_to_"@);
    if parts.len() == 2 {
        match (range_of(parts[0]), range_of(parts[1])) {
            (Some(before), Some(after)) => Some((before.0, before.1, after.0, after.1)),
            _ => None,
        }
    } else {
        None
    }
}

/// The ranges of the reorg that the file of this name holds, if it is such a
/// file.
pub open spec fn reorg_range(name: Seq<char>) -> Option<(u64, u64, u64, u64)> {
    let rest = name.skip("reorg_"@.len() as int);
    if starts_with(name, "reorg_"@) && ends_with(rest, ".bincode"@) {
        ranges_of(rest.take(rest.len() - ".bincode"@.len()))
    } else {
        None
    }
}

fn strip_prefix(text: &Vec<char>, prefix: &Vec<char>) -> (rest: Option<Vec<char>>)
    ensures
        match rest {
            Some(kept) => starts_with(text@, prefix@) && kept@ == text@.skip(prefix@.len() as int),
            None => !starts_with(text@, prefix@),
        },
{
    if prefix.len() > text.len() {
        return None;
    }
    let head = part(text, 0, prefix.len());
    let mut i: usize = 0;
    while i < prefix.len()
        invariant
            i <= prefix@.len(),
            prefix@.len() <= text@.len(),
            head@ == text@.subrange(0, prefix@.len() as int),
            forall|j: int| 0 <= j < i ==> #[trigger] head@[j] == prefix@[j],
        decreases prefix.len() - i,
    {
        if head[i] != prefix[i] {
            assert(head@[i as int] != prefix@[i as int]);
            return None;
        }
        i += 1;
    }
    assert(head@ =~= prefix@);
    let rest = part(text, prefix.len(), text.len());
    assert(rest@ =~= text@.skip(prefix@.len() as int));
    Some(rest)
}

fn strip_suffix(text: &Vec<char>, suffix: &Vec<char>) -> (rest: Option<Vec<char>>)
    ensures
        match rest {
            Some(kept) => ends_with(text@, suffix@) && kept@ == text@.take(
                text@.len() - suffix@.len(),
            ),
            None => !ends_with(text@, suffix@),
        },
{
    if suffix.len() > text.len() {
        return None;
    }
    let at: usize = text.len() - suffix.len();
    let tail = part(text, at, text.len());
    assert(tail@ =~= text@.skip(at as int));
    let mut i: usize = 0;
    while i < suffix.len()
        invariant
            i <= suffix@.len(),
            suffix@.len() <= text@.len(),
            tail@.len() == suffix@.len(),
            tail@ == text@.skip(text@.len() - suffix@.len()),
            forall|j: int| 0 <= j < i ==> #[trigger] tail@[j] == suffix@[j],
        decreases suffix.len() - i,
    {
        if tail[i] != suffix[i] {
            assert(tail@[i as int] != suffix@[i as int]);
            return None;
        }
        i += 1;
    }
    assert(tail@ =~= suffix@);
    let rest = part(text, 0, at);
    assert(rest@ =~= text@.take(at as int));
    Some(rest)
}

/// The block whose commit the file of this name holds, if it is such a file.
pub fn parse_commit_name(name: &str) -> (block: Option<u64>)
    ensures
        block == commit_block(name@),
{
    let text = chars_of(name);
    if strip_suffix(&text, &chars_of(".bincode")).is_none() {
        return None;
    }
    match strip_prefix(&text, &chars_of("commit_")) {
        Some(rest) => {
            proof {
                reveal_strlit("_");
            }
            let fields = split(rest, &chars_of("_"));
            assert(texts(fields@).len() > 0);
            let first = &fields[0];
            assert(texts(fields@)[0] == first@);
            parse_u64(first)
        },
        None => None,
    }
}

fn parse_range(text: Vec<char>) -> (range: Option<(u64, u64)>)
    ensures
        range == range_of(text@),
{
    proof {
        reveal_strlit("_");
    }
    let fields = split(text, &chars_of("_"));
    assert(texts(fields@).len() == fields@.len());
    if fields.len() != 2 {
        return None;
    }
    assert(texts(fields@)[0] == fields@[0]@);
    assert(texts(fields@)[1] == fields@[1]@);
    match (parse_u64(&fields[0]), parse_u64(&fields[1])) {
        (Some(start), Some(end)) => Some((start, end)),
        _ => None,
    }
}

/// The ranges of the reorg that the file of this name holds, if it is such a
/// file.
pub fn parse_reorg_name(name: &str) -> (range: Option<(u64, u64, u64, u64)>)
    ensures
        range == reorg_range(name@),
{
    let text = chars_of(name);
    let rest = match strip_prefix(&text, &chars_of("reorg_")) {
        Some(rest) => rest,
        None => {
            return None;
        },
    };
    let middle = match strip_suffix(&rest, &chars_of(".bincode")) {
        Some(middle) => middle,
        None => {
            return None;
        },
    };
    proof {
        reveal_strlit("_to_");
    }
    let mut parts = split(middle, &chars_of("_to_"));
    let ghost both = texts(parts@);
    assert(both.len() == parts@.len());
    if parts.len() != 2 {
        return None;
    }
    assert(both[0] == parts@[0]@);
    assert(both[1] == parts@[1]@);
    let after = parts.pop().unwrap();
    let before = parts.pop().unwrap();
    match (parse_range(before), parse_range(after)) {
        (Some((old_start, old_end)), Some((new_start, new_end))) => Some(
            (old_start, old_end, new_start, new_end),
        ),
        _ => None,
    }
}

/// The blocks whose commits lie in a directory with these file names, in
/// ascending order.
pub fn list_commit_blocks(names: &Vec<String>) -> (blocks: Vec<u64>)
    ensures
        blocks@ == names.deep_view().filter_map(|name: Seq<char>| commit_block(name)).sort_by(
            order_of::<u64>(),
        ),
{
    let ghost model = names.deep_view();
    let ghost f = |name: Seq<char>| commit_block(name);
    let mut blocks: Vec<u64> = Vec::new();
    let mut i: usize = 0;
    assert(model.take(0).filter_map(f) =~= Seq::<u64>::empty());
    while i < names.len()
        invariant
            i <= names@.len(),
            model == names.deep_view(),
            f == (|name: Seq<char>| commit_block(name)),
            blocks@ == model.take(i as int).filter_map(f),
        decreases names.len() - i,
    {
        let ghost longer = model.take(i + 1);
        assert(longer.drop_last() =~= model.take(i as int));
        assert(longer.last() == names@[i as int]@);
        let ghost before = blocks@;
        if let Some(block) = parse_commit_name(names[i].as_str()) {
            blocks.push(block);
            assert(blocks@ =~= before + seq![block]);
        }
        i += 1;
    }
    assert(model.take(i as int) =~= model);
    sort(blocks)
}

/// The ranges of the reorgs that lie in a directory with these file names, in
/// ascending order.
pub fn list_reorgs(names: &Vec<String>) -> (reorgs: Vec<(u64, u64, u64, u64)>)
    ensures
        reorgs@ == names.deep_view().filter_map(|name: Seq<char>| reorg_range(name)).sort_by(
            order_of::<(u64, u64, u64, u64)>(),
        ),
{
    let ghost model = names.deep_view();
    let ghost f = |name: Seq<char>| reorg_range(name);
    let mut reorgs: Vec<(u64, u64, u64, u64)> = Vec::new();
    let mut i: usize = 0;
    assert(model.take(0).filter_map(f) =~= Seq::<(u64, u64, u64, u64)>::empty());
    while i < names.len()
        invariant
            i <= names@.len(),
            model == names.deep_view(),
            f == (|name: Seq<char>| reorg_range(name)),
            reorgs@ == model.take(i as int).filter_map(f),
        decreases names.len() - i,
    {
        let ghost longer = model.take(i + 1);
        assert(longer.drop_last() =~= model.take(i as int));
        assert(longer.last() == names@[i as int]@);
        let ghost before = reorgs@;
        if let Some(range) = parse_reorg_name(names[i].as_str()) {
            reorgs.push(range);
            assert(reorgs@ =~= before + seq![range]);
        }
        i += 1;
    }
    assert(model.take(i as int) =~= model);
    sort(reorgs)
}

/// Digits up to an underscore are the first field.
proof fn lemma_first_field(digits: Seq<char>, rest: Seq<char>)
    requires
        is_number(digits),
    ensures
        split_by(digits + "_"@ + rest, "_"@) == seq![digits] + split_by(rest, "_"@),
{
    reveal_strlit("_");
    let text = digits + "_"@ + rest;
    let at = digits.len() as int;
    assert(text.subrange(at, at + 1) =~= "_"@);
    assert forall|j: int| 0 <= j < at implies !#[trigger] occurs_at(text, "_"@, j) by {
        assert(text.subrange(j, j + 1)[0] == digits[j]);
        assert(is_digit(digits[j]));
    }
    lemma_split_at(text, "_"@, at);
    assert(text.take(at) =~= digits);
    assert(text.skip(at + 1) =~= rest);
}

/// Digits are their own only field.
proof fn lemma_only_field(digits: Seq<char>)
    requires
        is_number(digits),
    ensures
        split_by(digits, "_"@) == seq![digits],
{
    reveal_strlit("_");
    assert forall|j: int| 0 <= j implies !#[trigger] occurs_at(digits, "_"@, j) by {
        if j < digits.len() {
            assert(digits.subrange(j, j + 1)[0] == digits[j]);
            assert(is_digit(digits[j]));
        }
    }
    lemma_split_none(digits, "_"@);
}

proof fn lemma_range(start: u64, end: u64)
    ensures
        range_of(decimal(start as nat) + "_"@ + decimal(end as nat)) == Some((start, end)),
{
    decimal_reads_back(start);
    decimal_reads_back(end);
    lemma_first_field(decimal(start as nat), decimal(end as nat));
    lemma_only_field(decimal(end as nat));
    let parts = split_by(decimal(start as nat) + "_"@ + decimal(end as nat), "_"@);
    assert(parts =~= seq![decimal(start as nat), decimal(end as nat)]);
}

/// The text of a range holds digits and one underscore, and so no `t`.
proof fn lemma_range_chars(start: u64, end: u64)
    ensures
        ({
            let text = decimal(start as nat) + "_"@ + decimal(end as nat);
            forall|j: int| 0 <= j < text.len() ==> #[trigger] text[j] != 't'
        }),
{
    reveal_strlit("_");
    decimal_reads_back(start);
    decimal_reads_back(end);
    let a = decimal(start as nat);
    let b = decimal(end as nat);
    let text = a + "_"@ + b;
    assert forall|j: int| 0 <= j < text.len() implies #[trigger] text[j] != 't' by {
        if j < a.len() {
            assert(text[j] == a[j]);
            assert(is_digit(a[j]));
        } else if j > a.len() {
            assert(text[j] == b[j - a.len() - 1]);
            assert(is_digit(b[j - a.len() - 1]));
        }
    }
}

/// A commit is found under the name that it is written under.
pub proof fn commit_name_reads_back(block: u64)
    ensures
        commit_block(commit_name(block)) == Some(block),
{
    reveal_strlit("commit_");
    reveal_strlit(".bincode");
    let digits = decimal(block as nat);
    let name = commit_name(block);
    let tail = digits + ".bincode"@;
    assert(name.subrange(0, "commit_"@.len() as int) =~= "commit_"@);
    assert(name.skip(name.len() - ".bincode"@.len()) =~= ".bincode"@);
    assert(name.skip("commit_"@.len() as int) =~= digits + "_"@ + tail);
    decimal_reads_back(block);
    lemma_first_field(digits, tail);
}

/// A reorg is found under the name that it is written under.
pub proof fn reorg_name_reads_back(range: (u64, u64, u64, u64))
    ensures
        reorg_range(reorg_name(range)) == Some(range),
{
    reveal_strlit("reorg_");
    reveal_strlit(".bincode");
    reveal_strlit("_to_");
    let before = decimal(range.0 as nat) + "_"@ + decimal(range.1 as nat);
    let after = decimal(range.2 as nat) + "_"@ + decimal(range.3 as nat);
    let name = reorg_name(range);
    let middle = before + "_to_"@ + after;
    let rest = name.skip("reorg_"@.len() as int);
    assert(name.subrange(0, "reorg_"@.len() as int) =~= "reorg_"@);
    assert(rest =~= middle + ".bincode"@);
    assert(rest.skip(rest.len() - ".bincode"@.len()) =~= ".bincode"@);
    assert(rest.take(rest.len() - ".bincode"@.len()) =~= middle);
    lemma_range_chars(range.0, range.1);
    lemma_range_chars(range.2, range.3);
    let at = before.len() as int;
    assert(middle.subrange(at, at + 4) =~= "_to_"@);
    assert forall|j: int| 0 <= j < at implies !#[trigger] occurs_at(middle, "_to_"@, j) by {
        if j + 4 <= middle.len() {
            assert(middle.subrange(j, j + 4)[1] == middle[j + 1]);
            if j + 1 < at {
                assert(middle[j + 1] == before[j + 1]);
            }
        }
    }
    assert forall|j: int| 0 <= j implies !#[trigger] occurs_at(after, "_to_"@, j) by {
        if j + 4 <= after.len() {
            assert(after.subrange(j, j + 4)[1] == after[j + 1]);
        }
    }
    lemma_split_at(middle, "_to_"@, at);
    lemma_split_none(after, "_to_"@);
    assert(middle.take(at) =~= before);
    assert(middle.skip(at + 4) =~= after);
    assert(split_by(middle, "_to_"@) =~= seq![before, after]);
    lemma_range(range.0, range.1);
    lemma_range(range.2, range.3);
}

/// A file is listed as what its name says and as nothing else: no reorg and no
/// revert as a commit, and no commit and no revert as a reorg.
pub proof fn names_of_one_kind_are_not_of_another(
    block: u64,
    range: (u64, u64, u64, u64),
    start: u64,
    end: u64,
)
    ensures
        commit_block(reorg_name(range)) is None,
        commit_block(revert_name(start, end)) is None,
        reorg_range(commit_name(block)) is None,
        reorg_range(revert_name(start, end)) is None,
{
    reveal_strlit("commit_");
    reveal_strlit("reorg_");
    reveal_strlit("revert_");
    assert(reorg_name(range).subrange(0, 7)[0] == 'r');
    assert(revert_name(start, end).subrange(0, 7)[0] == 'r');
    assert(commit_name(block).subrange(0, 6)[0] == 'c');
    assert(revert_name(start, end).subrange(0, 6)[2] == 'v');
}

/// A text starts with another exactly if it is the other followed by something,
/// and ends with it exactly if it is something followed by the other.
pub proof fn prefixes_and_suffixes_are_parts(text: Seq<char>, outer: Seq<char>)
    ensures
        starts_with(text, outer) <==> outer.len() <= text.len() && text == outer + text.skip(
            outer.len() as int,
        ),
        ends_with(text, outer) <==> outer.len() <= text.len() && text == text.take(
            text.len() - outer.len(),
        ) + outer,
{
    if outer.len() <= text.len() {
        let n = outer.len() as int;
        assert(text =~= text.subrange(0, n) + text.skip(n));
        assert((outer + text.skip(n)).subrange(0, n) =~= outer);
        let m = text.len() - outer.len();
        assert(text =~= text.take(m) + text.skip(m));
        assert((text.take(m) + outer).skip(m) =~= outer);
    }
}

/// The names are made of the word, the numbers in decimal with underscores
/// between them, `_to_` between the two ranges of a reorg, and the ending.
pub proof fn names_are_spelled_out(
    block: u64,
    range: (u64, u64, u64, u64),
    start: u64,
    end: u64,
)
    ensures
        commit_name(block) == "commit_"@ + decimal(block as nat) + "_"@ + decimal(block as nat)
            + ".bincode"@,
        reorg_name(range) == "reorg_"@ + decimal(range.0 as nat) + "_"@ + decimal(range.1 as nat)
            + "_to_"@ + decimal(range.2 as nat) + "_"@ + decimal(range.3 as nat) + ".bincode"@,
        revert_name(start, end) == "revert_"@ + decimal(start as nat) + "_"@ + decimal(end as nat)
            + ".bincode"@,
{
}

/// A file whose name starts with `commit_`, a block's number and an underscore,
/// and ends in `.bincode`, holds the commit of that block, whatever is between.
pub proof fn commit_is_known_by_its_first_number(block: u64, rest: Seq<char>)
    ensures
        commit_block("commit_"@ + decimal(block as nat) + "_"@ + rest + ".bincode"@) == Some(block),
{
    reveal_strlit("commit_");
    reveal_strlit(".bincode");
    let digits = decimal(block as nat);
    let name = "commit_"@ + digits + "_"@ + rest + ".bincode"@;
    let tail = rest + ".bincode"@;
    assert(name.subrange(0, "commit_"@.len() as int) =~= "commit_"@);
    assert(name.skip(name.len() - ".bincode"@.len()) =~= ".bincode"@);
    assert(name.skip("commit_"@.len() as int) =~= digits + "_"@ + tail);
    decimal_reads_back(block);
    lemma_first_field(digits, tail);
}

/// A file that holds a commit or a reorg has a name that starts with the word
/// for it and ends in `.bincode`.
pub proof fn foreign_files_are_passed_over(name: Seq<char>)
    ensures
        commit_block(name) is Some ==> {
            &&& name.len() >= "commit_"@.len()
            &&& name.take("commit_"@.len() as int) == "commit_"@
            &&& name.len() >= ".bincode"@.len()
            &&& name.skip(name.len() - ".bincode"@.len()) == ".bincode"@
        },
        reorg_range(name) is Some ==> {
            &&& name.len() >= "reorg_"@.len() + ".bincode"@.len()
            &&& name.take("reorg_"@.len() as int) == "reorg_"@
            &&& name.skip(name.len() - ".bincode"@.len()) == ".bincode"@
        },
{
    if commit_block(name) is Some {
        assert(name.take("commit_"@.len() as int) =~= name.subrange(0, "commit_"@.len() as int));
    }
    if reorg_range(name) is Some {
        let rest = name.skip("reorg_"@.len() as int);
        assert(name.take("reorg_"@.len() as int) =~= name.subrange(0, "reorg_"@.len() as int));
        assert(rest.skip(rest.len() - ".bincode"@.len()) =~= name.skip(
            name.len() - ".bincode"@.len(),
        ));
    }
}

/// Files are written under names under which they are listed again, each as what
/// it is.
pub proof fn files_are_listed_as_what_they_hold(
    block: u64,
    commit: String,
    range: (u64, u64, u64, u64),
    reorg: String,
    start: u64,
    end: u64,
    revert: String,
    name: &str,
    of_commit: Option<u64>,
    of_reorg: Option<(u64, u64, u64, u64)>,
)
    requires
        call_ensures(commit_file_name, (block,), commit),
        call_ensures(reorg_file_name, (range.0, range.1, range.2, range.3), reorg),
        call_ensures(revert_file_name, (start, end), revert),
        call_ensures(parse_commit_name, (name,), of_commit),
        call_ensures(parse_reorg_name, (name,), of_reorg),
    ensures
        commit@ == "commit_"@ + decimal(block as nat) + "_"@ + decimal(block as nat)
            + ".bincode"@,
        reorg@ == "reorg_"@ + decimal(range.0 as nat) + "_"@ + decimal(range.1 as nat) + "_to_"@
            + decimal(range.2 as nat) + "_"@ + decimal(range.3 as nat) + ".bincode"@,
        revert@ == "revert_"@ + decimal(start as nat) + "_"@ + decimal(end as nat) + ".bincode"@,
        name@ == commit@ ==> of_commit == Some(block) && of_reorg is None,
        name@ == reorg@ ==> of_reorg == Some(range) && of_commit is None,
        name@ == revert@ ==> of_commit is None && of_reorg is None,
{
    commit_name_reads_back(block);
    reorg_name_reads_back(range);
    names_of_one_kind_are_not_of_another(block, range, start, end);
}

/// The listings of a directory are in ascending order and name exactly the
/// commits and reorgs that the names tell of, each as often as they do.
pub proof fn listings_are_complete_and_ascending(
    names: Vec<String>,
    blocks: Vec<u64>,
    reorgs: Vec<(u64, u64, u64, u64)>,
)
    requires
        call_ensures(list_commit_blocks, (&names,), blocks),
        call_ensures(list_reorgs, (&names,), reorgs),
    ensures
        forall|i: int, j: int| 0 <= i < j < blocks@.len() ==> blocks@[i] <= blocks@[j],
        blocks@.to_multiset() == names.deep_view().filter_map(
            |name: Seq<char>| commit_block(name),
        ).to_multiset(),
        forall|i: int, j: int|
            0 <= i < j < reorgs@.len() ==> (#[trigger] reorgs@[i]).0 <= (#[trigger] reorgs@[j]).0,
        reorgs@.to_multiset() == names.deep_view().filter_map(
            |name: Seq<char>| reorg_range(name),
        ).to_multiset(),
{
    let committed = names.deep_view().filter_map(|name: Seq<char>| commit_block(name));
    let replaced = names.deep_view().filter_map(|name: Seq<char>| reorg_range(name));
    lemma_order::<u64>();
    lemma_order::<(u64, u64, u64, u64)>();
    committed.lemma_sort_by_ensures(order_of::<u64>());
    replaced.lemma_sort_by_ensures(order_of::<(u64, u64, u64, u64)>());
    assert forall|i: int, j: int| 0 <= i < j < blocks@.len() implies blocks@[i] <= blocks@[j] by {
        assert(order_of::<u64>()(blocks@[i], blocks@[j]));
    }
    assert forall|i: int, j: int| 0 <= i < j < reorgs@.len() implies (#[trigger] reorgs@[i]).0
        <= (#[trigger] reorgs@[j]).0 by {
        assert(order_of::<(u64, u64, u64, u64)>()(reorgs@[i], reorgs@[j]));
    }
}

} // verus!
