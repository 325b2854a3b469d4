//! Cutting a line of text into fields at a separator character.

use vstd::prelude::*;

verus! {

/// The fields of `text` when it is cut at every occurrence of `sep`.
///
/// Reading `text` from left to right, each separator closes the current field
/// and opens a new, empty one; any other character extends the current field.
/// The empty text has one empty field.
pub open spec fn split_on(text: Seq<char>, sep: char) -> Seq<Seq<char>>
    decreases text.len(),
{
    if text.len() == 0 {
        seq![Seq::<char>::empty()]
    } else {
        let before = split_on(text.drop_last(), sep);
        if text.last() == sep {
            before.push(Seq::<char>::empty())
        } else {
            before.update(before.len() - 1, before.last().push(text.last()))
        }
    }
}

/// Cuts `line` at every occurrence of `sep`.
pub fn split_fields(line: &str, sep: char) -> (fields: Vec<String>)
    ensures
        fields.deep_view() == split_on(line@, sep),
{
    let mut fields: Vec<String> = Vec::new();
    let mut current = String::new();
    for c in it: line.chars()
        invariant
            it.seq() == line@,
            fields.deep_view().push(current@) == split_on(line@.subrange(0, it.index()), sep),
    {
        let ghost seen = line@.subrange(0, it.index());
        let ghost next = line@.subrange(0, it.index() + 1);
        let ghost done = fields.deep_view();
        let ghost partial = current@;
        assert(next.drop_last() =~= seen);
        assert(next.last() == c);
        if c == sep {
            fields.push(current);
            current = String::new();
            assert(fields.deep_view() =~= done.push(partial));
        } else {
            current.push(c);
            assert(fields.deep_view().push(current@) =~= done.push(partial).update(
                done.len() as int,
                partial.push(c),
            ));
        }
    }
    let ghost done = fields.deep_view();
    assert(line@.subrange(0, line@.len() as int) =~= line@);
    fields.push(current);
    assert(fields.deep_view() =~= done.push(current@));
    fields
}

/// The text that results when `fields` are written one after another with
/// `sep` between each two neighbours.
pub open spec fn join_with(fields: Seq<Seq<char>>, sep: char) -> Seq<char>
    decreases fields.len(),
{
    if fields.len() == 0 {
        Seq::empty()
    } else if fields.len() == 1 {
        fields[0]
    } else {
        join_with(fields.drop_last(), sep).push(sep) + fields.last()
    }
}

/// Cutting a text always gives at least one field.
pub proof fn split_is_never_empty(text: Seq<char>, sep: char)
    ensures
        split_on(text, sep).len() >= 1,
    decreases text.len(),
{
    if text.len() > 0 {
        split_is_never_empty(text.drop_last(), sep);
    }
}

/// No field of a cut text holds the separator.
pub proof fn split_fields_hold_no_separator(text: Seq<char>, sep: char)
    ensures
        forall|i: int|
            0 <= i < split_on(text, sep).len() ==> !(#[trigger] split_on(text, sep)[i]).contains(
                sep,
            ),
    decreases text.len(),
{
    if text.len() > 0 {
        split_is_never_empty(text.drop_last(), sep);
        split_fields_hold_no_separator(text.drop_last(), sep);
    }
}

/// Cutting loses nothing: the fields of a text, joined again with the
/// separator, are the text.
pub proof fn split_then_join(text: Seq<char>, sep: char)
    ensures
        join_with(split_on(text, sep), sep) == text,
    decreases text.len(),
{
    if text.len() > 0 {
        let before = split_on(text.drop_last(), sep);
        split_is_never_empty(text.drop_last(), sep);
        split_then_join(text.drop_last(), sep);
        if text.last() == sep {
            assert(before.push(Seq::<char>::empty()).drop_last() =~= before);
            assert(join_with(before, sep).push(sep) + Seq::<char>::empty() =~= text);
        } else {
            let grown = before.last().push(text.last());
            let after = before.update(before.len() - 1, grown);
            if before.len() == 1 {
                assert(grown =~= text);
            } else {
                assert(after.drop_last() =~= before.drop_last());
                assert(join_with(before.drop_last(), sep).push(sep) + grown =~= (join_with(
                    before.drop_last(),
                    sep,
                ).push(sep) + before.last()).push(text.last()));
                assert(join_with(before, sep).push(text.last()) =~= text);
            }
        }
    } else {
        assert(join_with(seq![Seq::<char>::empty()], sep) =~= text);
    }
}

/// Cutting undoes joining: fields that hold no separator, at least one of
/// them, come back unchanged when their joined text is cut. Together with
/// the three laws above this says that the fields of a text are the only
/// separator-free pieces that join to it.
pub proof fn join_then_split(fields: Seq<Seq<char>>, sep: char)
    requires
        fields.len() >= 1,
        forall|i: int| 0 <= i < fields.len() ==> !(#[trigger] fields[i]).contains(sep),
    ensures
        split_on(join_with(fields, sep), sep) == fields,
    decreases fields.len(), fields.last().len(),
{
    let tail = fields.last();
    if tail.len() > 0 {
        let shorter = fields.update(fields.len() - 1, tail.drop_last());
        assert forall|i: int| 0 <= i < shorter.len() implies !(#[trigger] shorter[i]).contains(
            sep,
        ) by {
            if i == fields.len() - 1 {
                if shorter[i].contains(sep) {
                    let k = choose|k: int| 0 <= k < shorter[i].len() && shorter[i][k] == sep;
                    assert(tail[k] == sep);
                    assert(tail.contains(sep));
                }
            } else {
                assert(shorter[i] == fields[i]);
            }
        }
        join_then_split(shorter, sep);
        assert(tail.contains(tail.last()));
        if fields.len() == 1 {
            assert(join_with(fields, sep).drop_last() =~= join_with(shorter, sep));
        } else {
            assert(shorter.drop_last() =~= fields.drop_last());
            assert(join_with(fields, sep).drop_last() =~= join_with(shorter, sep));
        }
        assert(join_with(fields, sep).last() == tail.last());
        assert(tail.drop_last().push(tail.last()) =~= tail);
        assert(shorter.update(shorter.len() - 1, shorter.last().push(tail.last())) =~= fields);
    } else if fields.len() == 1 {
        assert(tail =~= Seq::<char>::empty());
        assert(fields =~= seq![Seq::<char>::empty()]);
    } else {
        let earlier = fields.drop_last();
        join_then_split(earlier, sep);
        assert(join_with(fields, sep) =~= join_with(earlier, sep).push(sep));
        assert(join_with(fields, sep).drop_last() =~= join_with(earlier, sep));
        assert(tail =~= Seq::<char>::empty());
        assert(earlier.push(Seq::<char>::empty()) =~= fields);
    }
}

} // verus!
