//! Label formats: texts that hold placeholders, such as `{percent}`.

use crate::text;
use vstd::prelude::*;
use vstd::string::StrSliceExecFns;
use vstd::string::StringExecFns;

verus! {

/// The texts of placeholders and what stands for each.
pub open spec fn pairs(values: Seq<(&str, &str)>) -> Seq<(Seq<char>, Seq<char>)> {
    values.map_values(|v: (&str, &str)| (v.0@, v.1@))
}

/// The first placeholder that `s` begins with.
pub open spec fn opening(s: Seq<char>, values: Seq<(Seq<char>, Seq<char>)>) -> Option<int>
    decreases values.len(),
{
    if values.len() == 0 {
        None
    } else {
        match opening(s, values.drop_last()) {
            Some(i) => Some(i),
            None => if values.last().0.len() > 0 && values.last().0.is_prefix_of(s) {
                Some(values.len() - 1)
            } else {
                None
            },
        }
    }
}

/// A placeholder that `s` begins with takes up a part of it.
pub proof fn lemma_opening(s: Seq<char>, values: Seq<(Seq<char>, Seq<char>)>)
    ensures
        opening(s, values) matches Some(i) ==> 0 <= i < values.len() && 0 < values[i].0.len()
            <= s.len(),
    decreases values.len(),
{
    if values.len() > 0 {
        lemma_opening(s, values.drop_last());
    }
}

/// `format` with every placeholder replaced by what stands for it, from left to
/// right. What is put in is not looked at again.
pub open spec fn filled(format: Seq<char>, values: Seq<(Seq<char>, Seq<char>)>) -> Seq<char>
    decreases format.len(),
{
    if format.len() == 0 {
        seq![]
    } else {
        proof {
            lemma_opening(format, values);
        }
        match opening(format, values) {
            Some(i) => values[i].1 + filled(format.skip(values[i].0.len() as int), values),
            None => seq![format[0]] + filled(format.skip(1), values),
        }
    }
}

fn find_opening(s: &str, values: &[(&str, &str)]) -> (place: Option<usize>)
    ensures
        match place {
            Some(i) => opening(s@, pairs(values@)) == Some(i as int) && i < values@.len(),
            None => opening(s@, pairs(values@)) is None,
        },
{
    let ghost all = pairs(values@);
    let mut i: usize = 0;
    while i < values.len()
        invariant
            i <= values@.len(),
            all == pairs(values@),
            opening(s@, all.take(i as int)) is None,
        decreases values@.len() - i,
    {
        assert(all.take(i + 1).drop_last() =~= all.take(i as int));
        let placeholder: &str = values[i].0;
        if !placeholder.is_empty() && text::strip_prefix(s, placeholder).is_some() {
            proof {
                lemma_opening_stays(s@, all, i + 1);
            }
            return Some(i);
        }
        i += 1;
    }
    assert(all.take(i as int) =~= all);
    None
}

proof fn lemma_opening_stays(s: Seq<char>, values: Seq<(Seq<char>, Seq<char>)>, n: int)
    requires
        0 <= n <= values.len(),
        opening(s, values.take(n)) is Some,
    ensures
        opening(s, values) == opening(s, values.take(n)),
    decreases values.len() - n,
{
    if n < values.len() {
        assert(values.take(n + 1).drop_last() =~= values.take(n));
        lemma_opening_stays(s, values, n + 1);
    } else {
        assert(values.take(n) =~= values);
    }
}

/// Replace the placeholders of `format`.
pub fn fill(format: &str, values: &[(&str, &str)]) -> (label: String)
    ensures
        label@ == filled(format@, pairs(values@)),
{
    let ghost all = pairs(values@);
    let mut label: String = String::new();
    let mut rest: &str = format;
    assert(label@ + filled(rest@, all) =~= filled(format@, all));
    while !rest.is_empty()
        invariant
            all == pairs(values@),
            label@ + filled(rest@, all) == filled(format@, all),
        decreases rest@.len(),
    {
        let ghost before = label@;
        let ghost left = rest@;
        match find_opening(rest, values) {
            Some(i) => {
                proof {
                    lemma_opening(left, all);
                }
                label.append(values[i].1);
                let len: usize = rest.unicode_len();
                let skipped: usize = values[i].0.unicode_len();
                rest = rest.substring_char(skipped, len);
                assert(rest@ =~= left.skip(all[i as int].0.len() as int));
                assert(label@ + filled(rest@, all) =~= before + filled(left, all));
            },
            None => {
                let c: char = rest.get_char(0);
                label.push(c);
                let len: usize = rest.unicode_len();
                rest = rest.substring_char(1, len);
                assert(rest@ =~= left.skip(1));
                assert(label@ + filled(rest@, all) =~= before + filled(left, all));
            },
        }
    }
    assert(label@ + filled(rest@, all) =~= label@);
    label
}

/// The parts of `s` before and behind the first place where `needle` stands in it.
pub open spec fn around(s: Seq<char>, needle: Seq<char>) -> Option<(Seq<char>, Seq<char>)>
    decreases s.len(),
{
    if needle.is_prefix_of(s) {
        Some((seq![], s.skip(needle.len() as int)))
    } else if s.len() == 0 {
        None
    } else {
        match around(s.skip(1), needle) {
            Some((before, behind)) => Some((seq![s[0]] + before, behind)),
            None => None,
        }
    }
}

/// The parts of `s` before and behind the first place where `needle` stands in it.
pub fn split_at_text<'a>(s: &'a str, needle: &str) -> (parts: Option<(&'a str, &'a str)>)
    ensures
        match parts {
            Some((before, behind)) => around(s@, needle@) == Some((before@, behind@)),
            None => around(s@, needle@) is None,
        },
{
    let len: usize = s.unicode_len();
    let mut i: usize = 0;
    assert(s@.skip(0) =~= s@);
    assert(around(s@, needle@) matches Some((before, behind)) ==> s@.take(0) + before =~= before);
    while i < len
        invariant
            i <= len == s@.len(),
            around(s@, needle@) == match around(s@.skip(i as int), needle@) {
                Some((before, behind)) => Some((s@.take(i as int) + before, behind)),
                None => None,
            },
        decreases len - i,
    {
        let rest: &'a str = s.substring_char(i, len);
        assert(rest@ =~= s@.skip(i as int));
        match text::strip_prefix(rest, needle) {
            Some(behind) => {
                let before: &'a str = s.substring_char(0, i);
                assert(before@ =~= s@.take(i as int) + seq![]);
                assert(behind@ =~= s@.skip(i as int).skip(needle@.len() as int));
                return Some((before, behind));
            },
            None => {},
        }
        proof {
            assert(s@.skip(i as int).skip(1) =~= s@.skip(i + 1));
            if let Some((before, behind)) = around(s@.skip(i + 1), needle@) {
                assert(s@.take(i as int) + (seq![s@[i as int]] + before) =~= s@.take(i + 1)
                    + before);
            }
        }
        i += 1;
    }
    let rest: &'a str = s.substring_char(len, len);
    assert(rest@ =~= s@.skip(len as int));
    match text::strip_prefix(rest, needle) {
        Some(behind) => {
            assert(s@.take(len as int) + Seq::<char>::empty() =~= s@);
            assert(behind@ =~= s@.skip(len as int).skip(needle@.len() as int));
            Some((s, behind))
        },
        None => None,
    }
}

/// A format without placeholders is its own label.
pub proof fn lemma_plain_text_stays(format: Seq<char>, values: Seq<(Seq<char>, Seq<char>)>)
    requires
        !format.contains('{'),
        forall|i: int|
            0 <= i < values.len() ==> (#[trigger] values[i]).0.len() > 0 && values[i].0[0] == '{',
    ensures
        filled(format, values) == format,
    decreases format.len(),
{
    if format.len() > 0 {
        lemma_no_opening(format, values);
        assert forall|i: int| 0 <= i < format.skip(1).len() implies #[trigger] format.skip(1)[i]
            != '{' by {
            assert(format[i + 1] != '{');
        }
        lemma_plain_text_stays(format.skip(1), values);
        assert(seq![format[0]] + format.skip(1) =~= format);
    }
}

proof fn lemma_no_opening(s: Seq<char>, values: Seq<(Seq<char>, Seq<char>)>)
    requires
        s.len() > 0,
        !s.contains('{'),
        forall|i: int|
            0 <= i < values.len() ==> (#[trigger] values[i]).0.len() > 0 && values[i].0[0] == '{',
    ensures
        opening(s, values) is None,
    decreases values.len(),
{
    if values.len() > 0 {
        let init = values.drop_last();
        assert forall|i: int| 0 <= i < init.len() implies (#[trigger] init[i]).0.len() > 0
            && init[i].0[0] == '{' by {
            assert(init[i] == values[i]);
        }
        lemma_no_opening(s, init);
        if values.last().0.is_prefix_of(s) {
            assert(s[0] == values.last().0[0]);
        }
    }
}

/// Text without a brace passes into the label as it is, whatever follows it.
pub proof fn lemma_text_before_a_brace_passes(
    text: Seq<char>,
    rest: Seq<char>,
    values: Seq<(Seq<char>, Seq<char>)>,
)
    requires
        !text.contains('{'),
        forall|i: int|
            0 <= i < values.len() ==> (#[trigger] values[i]).0.len() > 0 && values[i].0[0] == '{',
    ensures
        filled(text + rest, values) == text + filled(rest, values),
    decreases text.len(),
{
    if text.len() == 0 {
        assert(text + rest =~= rest);
        assert(text + filled(rest, values) =~= filled(rest, values));
    } else {
        let s = text + rest;
        assert(s[0] == text[0]);
        assert(text.contains(text[0]));
        lemma_nothing_opens(s, values);
        assert(s.skip(1) =~= text.skip(1) + rest);
        assert forall|k: int| 0 <= k < text.skip(1).len() implies text.skip(1)[k] != '{' by {
            assert(text.contains(text[k + 1]));
        }
        lemma_text_before_a_brace_passes(text.skip(1), rest, values);
        assert(seq![text[0]] + (text.skip(1) + filled(rest, values)) =~= text + filled(
            rest,
            values,
        ));
    }
}

proof fn lemma_nothing_opens(s: Seq<char>, values: Seq<(Seq<char>, Seq<char>)>)
    requires
        s.len() > 0,
        s[0] != '{',
        forall|i: int|
            0 <= i < values.len() ==> (#[trigger] values[i]).0.len() > 0 && values[i].0[0] == '{',
    ensures
        opening(s, values) is None,
    decreases values.len(),
{
    if values.len() > 0 {
        let init = values.drop_last();
        assert forall|i: int| 0 <= i < init.len() implies (#[trigger] init[i]).0.len() > 0
            && init[i].0[0] == '{' by {
            assert(init[i] == values[i]);
        }
        lemma_nothing_opens(s, init);
        assert(values.last() == values[values.len() - 1]);
    }
}

/// A placeholder stands for its value, as long as no placeholder listed before it also
/// begins there. The value is taken as it is, braces and all, and the rest of the format
/// is looked at behind it.
pub proof fn lemma_a_placeholder_stands_for_its_value(
    values: Seq<(Seq<char>, Seq<char>)>,
    k: int,
    rest: Seq<char>,
)
    requires
        0 <= k < values.len(),
        values[k].0.len() > 0,
        forall|j: int|
            0 <= j < k ==> !(#[trigger] values[j]).0.is_prefix_of(values[k].0 + rest)
                || values[j].0.len() == 0,
    ensures
        filled(values[k].0 + rest, values) == values[k].1 + filled(rest, values),
{
    let s = values[k].0 + rest;
    lemma_first_opening(s, values, k, values.len() as int);
    assert(values.take(values.len() as int) =~= values);
    assert(s.skip(values[k].0.len() as int) =~= rest);
}

proof fn lemma_first_opening(
    s: Seq<char>,
    values: Seq<(Seq<char>, Seq<char>)>,
    k: int,
    n: int,
)
    requires
        0 <= k < values.len(),
        0 <= n <= values.len(),
        values[k].0.len() > 0,
        values[k].0.is_prefix_of(s),
        forall|j: int|
            0 <= j < k ==> !(#[trigger] values[j]).0.is_prefix_of(s) || values[j].0.len() == 0,
    ensures
        opening(s, values.take(n)) == if n > k {
            Some(k)
        } else {
            None
        },
    decreases n,
{
    if n > 0 {
        lemma_first_opening(s, values, k, n - 1);
        assert(values.take(n).drop_last() =~= values.take(n - 1));
        assert(values.take(n).last() == values[n - 1]);
    }
}

/// The parts of a text around a word are what stands before and behind it, as long as the
/// word does not begin earlier.
pub proof fn lemma_parts_stand_around(before: Seq<char>, needle: Seq<char>, behind: Seq<char>)
    requires
        forall|i: int|
            0 <= i < before.len() ==> !needle.is_prefix_of(
                #[trigger] (before + needle + behind).skip(i),
            ),
    ensures
        around(before + needle + behind, needle) == Some((before, behind)),
    decreases before.len(),
{
    let s = before + needle + behind;
    if before.len() == 0 {
        assert(s =~= needle + behind);
        assert(needle.is_prefix_of(s));
        assert(s.skip(needle.len() as int) =~= behind);
        assert(before =~= seq![]);
    } else {
        assert(s.skip(0) =~= s);
        assert(!needle.is_prefix_of(s));
        let rest = before.skip(1);
        assert(s.skip(1) =~= rest + needle + behind);
        assert forall|i: int| 0 <= i < rest.len() implies !needle.is_prefix_of(
            #[trigger] (rest + needle + behind).skip(i),
        ) by {
            assert((rest + needle + behind).skip(i) =~= s.skip(i + 1));
        }
        lemma_parts_stand_around(rest, needle, behind);
        assert(seq![s[0]] + rest =~= before);
    }
}

} // verus!
