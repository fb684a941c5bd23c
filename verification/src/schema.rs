use vstd::prelude::*;

verus! {

/// What the settings routes read of an index schema: the name of each field
/// id, the names of the searchable (indexed) attributes in their order, the
/// names of the displayed attributes, and whether new fields are accepted.
#[derive(Debug, PartialEq, Eq)]
pub struct Schema {
    pub fields: Vec<(u16, String)>,
    pub indexed: Vec<String>,
    pub displayed: Vec<String>,
    pub accept_new_fields: bool,
}

/// The name that `fields` gives to the field id `id`: that of its first entry
/// for `id`, if there is one.
pub open spec fn field_name(fields: Seq<(u16, String)>, id: u16) -> Option<Seq<char>>
    decreases fields.len(),
{
    if fields.len() == 0 {
        None
    } else if fields[0].0 == id {
        Some(fields[0].1@)
    } else {
        field_name(fields.drop_first(), id)
    }
}

impl Schema {
    pub open spec fn name_of(&self, id: u16) -> Option<Seq<char>> {
        field_name(self.fields@, id)
    }

    /// The name of the field `id`, if the schema knows the id.
    pub fn name(&self, id: u16) -> (res: Option<String>)
        ensures
            res.deep_view() == self.name_of(id),
    {
        let n = self.fields.len();
        let mut i: usize = 0;
        assert(self.fields@.skip(0) =~= self.fields@);
        while i < n
            invariant
                n == self.fields@.len(),
                0 <= i <= n,
                field_name(self.fields@.skip(i as int), id) == self.name_of(id),
            decreases n - i,
        {
            assert(self.fields@.skip(i as int).drop_first() =~= self.fields@.skip(i + 1));
            if self.fields[i].0 == id {
                return Some(self.fields[i].1.clone());
            }
            i = i + 1;
        }
        assert(self.fields@.skip(i as int).len() == 0);
        None
    }
}

} // verus!
