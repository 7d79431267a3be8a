//! What every refusal tells: a slug that names it and the values that bear on
//! it.

use crate::text::{append_text, owned};
use vstd::prelude::*;

verus! {

/// The named values of a refusal, as text.
pub open spec fn fields_text(fields: Seq<(&'static str, String)>) -> Seq<(Seq<char>, Seq<char>)> {
    fields.map_values(|field: (&'static str, String)| (field.0@, field.1@))
}

/// A refusal that another part of the device worded.
#[derive(Debug, PartialEq, Eq)]
pub struct Decline {
    /// The name of the refusal.
    pub slug: &'static str,
    /// Its named values.
    pub fields: Vec<(&'static str, String)>,
    /// The line that reports it.
    pub line: String,
}

impl Decline {
    /// The named values, as text.
    pub open spec fn text(self) -> Seq<(Seq<char>, Seq<char>)> {
        fields_text(self.fields@)
    }
}

/// Add a named value at the end.
pub fn add_field(fields: &mut Vec<(&'static str, String)>, name: &'static str, value: String)
    ensures
        fields_text(final(fields)@) == fields_text(old(fields)@).push((name@, value@)),
{
    fields.push((name, value));
    assert(fields_text(fields@) =~= fields_text(old(fields)@).push((name@, value@)));
}

/// A copy of the named values.
pub fn copy_fields(fields: &Vec<(&'static str, String)>) -> (copy: Vec<(&'static str, String)>)
    ensures
        fields_text(copy@) == fields_text(fields@),
{
    let mut copy: Vec<(&'static str, String)> = Vec::new();
    let mut k: usize = 0;
    while k < fields.len()
        invariant
            k <= fields@.len(),
            fields_text(copy@) == fields_text(fields@.take(k as int)),
        decreases fields@.len() - k,
    {
        let ghost before = copy@;
        copy.push((fields[k].0, owned(fields[k].1.as_str())));
        proof {
            assert(copy@ =~= before.push(copy@.last()));
            assert(fields_text(copy@) =~= fields_text(before).push((
                copy@.last().0@,
                copy@.last().1@,
            )));
            assert(fields@.take(k + 1) =~= fields@.take(k as int).push(fields@[k as int]));
            assert(fields_text(fields@.take(k + 1)) =~= fields_text(fields@.take(k as int)).push((
                fields@[k as int].0@,
                fields@[k as int].1@,
            )));
        }
        k += 1;
    }
    assert(fields@.take(k as int) =~= fields@);
    copy
}

/// Named values one after the other, each with a space before it.
pub open spec fn spaced(fields: Seq<(Seq<char>, Seq<char>)>) -> Seq<char>
    decreases fields.len(),
{
    if fields.len() == 0 {
        Seq::empty()
    } else {
        let (name, value) = fields.last();
        spaced(fields.drop_last()) + " "@ + name + "="@ + value
    }
}

/// The line that reports a refusal by its name and its values.
pub open spec fn fields_line(slug: Seq<char>, fields: Seq<(Seq<char>, Seq<char>)>) -> Seq<char> {
    "reason="@ + slug + spaced(fields)
}

/// The line that reports a refusal by its name and its values.
pub fn line_of(slug: &str, fields: &Vec<(&'static str, String)>) -> (line: String)
    ensures
        line@ == fields_line(slug@, fields_text(fields@)),
{
    let mut line = owned("reason=");
    append_text(&mut line, slug);
    let ghost head = line@;
    let ghost named = fields_text(fields@);
    let mut k: usize = 0;
    assert(named.take(0) =~= Seq::empty());
    assert(line@ =~= head + spaced(named.take(0)));
    while k < fields.len()
        invariant
            k <= fields@.len(),
            named == fields_text(fields@),
            line@ == head + spaced(named.take(k as int)),
        decreases fields@.len() - k,
    {
        append_text(&mut line, " ");
        append_text(&mut line, fields[k].0);
        append_text(&mut line, "=");
        append_text(&mut line, fields[k].1.as_str());
        proof {
            let next = named.take(k + 1);
            assert(next.drop_last() =~= named.take(k as int));
            assert(next.last() == (fields@[k as int].0@, fields@[k as int].1@));
            assert(line@ =~= head + spaced(next));
        }
        k += 1;
    }
    assert(named.take(k as int) =~= named);
    line
}

/// Each value stands behind its name, a space before it and an equals sign between, in order.
pub proof fn law_values_stand_behind_their_names(
    slug: Seq<char>,
    fields: Seq<(Seq<char>, Seq<char>)>,
    name: Seq<char>,
    value: Seq<char>,
)
    ensures
        spaced(Seq::<(Seq<char>, Seq<char>)>::empty()).len() == 0,
        spaced(fields.push((name, value))) == spaced(fields) + (" "@ + name + "="@ + value),
        fields_line(slug, fields.push((name, value))) == fields_line(slug, fields) + (" "@ + name
            + "="@ + value),
        fields_line(slug, Seq::<(Seq<char>, Seq<char>)>::empty()) == "reason="@ + slug,
{
    assert(fields.push((name, value)).drop_last() =~= fields);
    let more = " "@ + name + "="@ + value;
    assert(spaced(fields.push((name, value))) =~= spaced(fields) + more);
    assert(fields_line(slug, fields.push((name, value))) =~= fields_line(slug, fields) + more);
    assert(fields_line(slug, Seq::<(Seq<char>, Seq<char>)>::empty()) =~= "reason="@ + slug);
}

/// The text of a refusal's values is that of each, in order.
pub proof fn law_each_value_is_told(fields: Seq<(&'static str, String)>, k: int)
    requires
        0 <= k < fields.len(),
    ensures
        fields_text(fields).len() == fields.len(),
        fields_text(fields)[k].0 == fields[k].0@,
        fields_text(fields)[k].1 == fields[k].1@,
{
}

} // verus!
