use vstd::prelude::*;
use crate::read::{
    accepts_new_fields, displayed_names, distinct_name, faceting_names, full_read, known_names,
    rules_in_force, searchable_names, StoredSettings,
};
use crate::schema::{field_name, Schema};
use crate::settings::{synonym_map, Setting, Settings, SettingsUpdate};
use crate::text::text_lt;

verus! {

/// The full read of an index's settings gives, for the ranking rules, the
/// searchable and displayed attributes, whether new fields are accepted and the
/// attributes for faceting, what the read of that one setting gives.
pub proof fn law_full_read_agrees_with_single_reads(stored: StoredSettings)
    ensures
        full_read(stored).ranking_rules == Some(
            Some(rules_in_force(stored.ranking_rules, stored.default_ranking_rules)),
        ),
        full_read(stored).searchable_attributes == Some(searchable_names(stored.schema)),
        full_read(stored).displayed_attributes == Some(displayed_names(stored.schema)),
        full_read(stored).accept_new_fields == Some(accepts_new_fields(stored.schema)),
        full_read(stored).attributes_for_faceting == Some(
            Some(faceting_names(stored.schema, stored.attributes_for_faceting)),
        ),
{
}

/// Every name among the attributes for faceting is the schema's name of one of
/// the faceted ids, and there are no more names than ids.
pub proof fn law_faceting_names_come_from_the_schema(fields: Seq<(u16, String)>, ids: Seq<u16>)
    ensures
        known_names(fields, ids).len() <= ids.len(),
        forall|k: int|
            0 <= k < known_names(fields, ids).len() ==> exists|j: int|
                0 <= j < ids.len() && field_name(fields, #[trigger] ids[j]) == Some(
                    #[trigger] known_names(fields, ids)[k],
                ),
    decreases ids.len(),
{
    if ids.len() > 0 {
        let init = ids.drop_last();
        law_faceting_names_come_from_the_schema(fields, init);
        assert forall|k: int|
            0 <= k < known_names(fields, ids).len() implies exists|j: int|
                0 <= j < ids.len() && field_name(fields, #[trigger] ids[j]) == Some(
                    #[trigger] known_names(fields, ids)[k],
                ) by {
            if k < known_names(fields, init).len() {
                let j = choose|j: int|
                    0 <= j < init.len() && field_name(fields, #[trigger] init[j]) == Some(
                        #[trigger] known_names(fields, init)[k],
                    );
                assert(ids[j] == init[j]);
                assert(known_names(fields, ids)[k] == known_names(fields, init)[k]);
            } else {
                assert(ids[ids.len() - 1] == ids.last());
            }
        }
    }
}

/// The schema names a field id by its entry for that id, wherever the entry
/// stands in the list of fields: the first entry whose id is `id` gives the
/// name, and without an entry for `id` there is no name.
pub proof fn law_field_name_is_found_by_id(fields: Seq<(u16, String)>, id: u16)
    ensures
        (forall|k: int| 0 <= k < fields.len() ==> #[trigger] fields[k].0 != id) ==> field_name(
            fields,
            id,
        ) is None,
        forall|k: int|
            0 <= k < fields.len() && #[trigger] fields[k].0 == id && (forall|j: int|
                0 <= j < k ==> fields[j].0 != id) ==> field_name(fields, id) == Some(
                fields[k].1@,
            ),
    decreases fields.len(),
{
    if fields.len() > 0 {
        let rest = fields.drop_first();
        law_field_name_is_found_by_id(rest, id);
        if forall|k: int| 0 <= k < fields.len() ==> #[trigger] fields[k].0 != id {
            assert(fields[0].0 != id);
            assert forall|k: int| 0 <= k < rest.len() implies #[trigger] rest[k].0 != id by {
                assert(rest[k] == fields[k + 1]);
            }
        }
        assert forall|k: int|
            0 <= k < fields.len() && #[trigger] fields[k].0 == id && (forall|j: int|
                0 <= j < k ==> fields[j].0 != id) implies field_name(fields, id) == Some(
            fields[k].1@,
        ) by {
            if k > 0 {
                assert(fields[0].0 != id);
                assert(rest[k - 1] == fields[k]);
                assert forall|j: int| 0 <= j < k - 1 implies rest[j].0 != id by {
                    assert(rest[j] == fields[j + 1]);
                }
            }
        }
    }
}

/// The distinct attribute is read by name: with a distinct field id and a
/// schema, it is the schema's name of that id (by id, not by position), and
/// without either there is none.
pub proof fn law_distinct_attribute_is_named_by_id(distinct: Option<u16>, schema: Option<Schema>)
    ensures
        distinct is None ==> distinct_name(distinct, schema) is None,
        schema is None ==> distinct_name(distinct, schema) is None,
        match (distinct, schema) {
            (Some(id), Some(s)) => distinct_name(distinct, schema) == field_name(s.fields@, id),
            _ => true,
        },
        forall|id: u16, s: Schema, k: int|
            #![trigger distinct_name(Some(id), Some(s)), s.fields@[k]]
            0 <= k < s.fields@.len() && s.fields@[k].0 == id && (forall|j: int|
                0 <= j < k ==> s.fields@[j].0 != id) ==> distinct_name(Some(id), Some(s))
                == Some(s.fields@[k].1@),
{
    assert forall|id: u16, s: Schema, k: int|
        #![trigger distinct_name(Some(id), Some(s)), s.fields@[k]]
        0 <= k < s.fields@.len() && s.fields@[k].0 == id && (forall|j: int|
            0 <= j < k ==> s.fields@[j].0 != id) implies distinct_name(Some(id), Some(s)) == Some(
        s.fields@[k].1@,
    ) by {
        law_field_name_is_found_by_id(s.fields@, id);
    }
}

/// Whether new fields are accepted is the schema's own flag, and unknown
/// without a schema.
pub proof fn law_accept_new_fields_is_the_schema_flag(schema: Option<Schema>)
    ensures
        schema matches Some(s) ==> accepts_new_fields(schema) == Some(s.accept_new_fields),
        schema is None ==> accepts_new_fields(schema) is None,
{
}

/// Stored ranking rules are read back exactly, in their stored order; only
/// when none are stored do the default rules apply, also exactly.
pub proof fn law_stored_ranking_rules_are_read_back(stored: Option<Vec<String>>, defaults: Vec<String>)
    ensures
        stored matches Some(r) ==> rules_in_force(stored, defaults).len() == r@.len() && forall|
            i: int,
        | 0 <= i < r@.len() ==> #[trigger] rules_in_force(stored, defaults)[i] == r@[i]@,
        stored is None ==> rules_in_force(stored, defaults).len() == defaults@.len() && forall|
            i: int,
        | 0 <= i < defaults@.len() ==> #[trigger] rules_in_force(stored, defaults)[i]
            == defaults@[i]@,
{
}

/// The searchable attributes are all of the schema's indexed names, in their
/// order, and unknown without a schema.
pub proof fn law_searchable_attributes_are_the_indexed_names(schema: Option<Schema>)
    ensures
        schema matches Some(s) ==> searchable_names(schema) matches Some(names) && names.len()
            == s.indexed@.len() && forall|i: int|
            0 <= i < s.indexed@.len() ==> #[trigger] names[i] == s.indexed@[i]@,
        schema is None ==> searchable_names(schema) is None,
{
}

/// The displayed attributes are the set of the schema's displayed names, and
/// unknown without a schema.
pub proof fn law_displayed_attributes_are_the_displayed_names(schema: Option<Schema>)
    ensures
        schema matches Some(s) ==> displayed_names(schema) matches Some(names) && forall|
            w: Seq<char>,
        | #[trigger] names.contains(w) <==> exists|i: int|
            0 <= i < s.displayed@.len() && #[trigger] s.displayed@[i]@ == w,
        schema is None ==> displayed_names(schema) is None,
{
    if let Some(s) = schema {
        let names = displayed_names(schema)->0;
        assert forall|w: Seq<char>| #[trigger] names.contains(w) <==> exists|i: int|
            0 <= i < s.displayed@.len() && #[trigger] s.displayed@[i]@ == w by {
            if names.contains(w) {
                let i = choose|i: int|
                    0 <= i < s.displayed.deep_view().len() && s.displayed.deep_view()[i] == w;
                assert(s.displayed@[i]@ == w);
            }
            if exists|i: int| 0 <= i < s.displayed@.len() && #[trigger] s.displayed@[i]@ == w {
                let i = choose|i: int|
                    0 <= i < s.displayed@.len() && #[trigger] s.displayed@[i]@ == w;
                assert(s.displayed.deep_view()[i] == w);
            }
        }
    }
}

/// The names of the faceted ids are the schema's names of those ids, in the
/// order of the ids, each id that the schema names contributing its name and
/// the others none.
pub proof fn law_known_names_filter_the_ids(fields: Seq<(u16, String)>, ids: Seq<u16>)
    ensures
        known_names(fields, ids) == ids.filter_map(|id: u16| field_name(fields, id)),
        forall|j: int|
            0 <= j < ids.len() && (field_name(fields, #[trigger] ids[j]) is Some) ==> known_names(
                fields,
                ids,
            ).contains(field_name(fields, ids[j])->0),
    decreases ids.len(),
{
    let f = |id: u16| field_name(fields, id);
    if ids.len() > 0 {
        let init = ids.drop_last();
        law_known_names_filter_the_ids(fields, init);
        match field_name(fields, ids.last()) {
            Some(n) => {
                assert(init.filter_map(f) + seq![n] =~= init.filter_map(f).push(n));
            },
            None => {},
        }
        assert forall|j: int|
            0 <= j < ids.len() && (field_name(fields, #[trigger] ids[j]) is Some) implies known_names(
            fields,
            ids,
        ).contains(field_name(fields, ids[j])->0) by {
            let names = known_names(fields, ids);
            if j < ids.len() - 1 {
                assert(init[j] == ids[j]);
                let k = choose|k: int|
                    0 <= k < known_names(fields, init).len() && known_names(fields, init)[k]
                        == field_name(fields, init[j])->0;
                assert(names[k] == known_names(fields, init)[k]);
            } else {
                assert(names[names.len() - 1] == field_name(fields, ids[j])->0);
            }
        }
    } else {
        assert(ids.filter_map(f) =~= Seq::<Seq<char>>::empty());
    }
}

/// The attributes for faceting are, with a schema and faceted ids, the schema's
/// names of the ids in their order; without either there are none.
pub proof fn law_faceting_names_are_the_names_of_the_ids(schema: Option<Schema>, ids: Option<Vec<u16>>)
    ensures
        match (schema, ids) {
            (Some(s), Some(v)) => {
                &&& faceting_names(schema, ids) == v@.filter_map(
                    |id: u16| field_name(s.fields@, id),
                )
                &&& forall|j: int|
                    0 <= j < v@.len() && (field_name(s.fields@, #[trigger] v@[j]) is Some)
                        ==> faceting_names(schema, ids).contains(
                        field_name(s.fields@, v@[j])->0,
                    )
            },
            _ => true,
        },
        schema is None || ids is None ==> faceting_names(schema, ids).len() == 0,
{
    if let (Some(s), Some(v)) = (schema, ids) {
        law_known_names_filter_the_ids(s.fields@, v@);
    }
}

/// The synonyms that a list of entries denotes hold exactly the words of the
/// entries, each with the synonyms of its last entry.
pub proof fn law_synonyms_last_entry_wins(entries: Seq<(Seq<char>, Seq<Seq<char>>)>)
    ensures
        forall|w: Seq<char>|
            #[trigger] synonym_map(entries).contains_key(w) <==> exists|i: int|
                0 <= i < entries.len() && #[trigger] entries[i].0 == w,
        forall|i: int|
            0 <= i < entries.len() && (forall|j: int|
                i < j < entries.len() ==> entries[j].0 != entries[i].0) ==> #[trigger] synonym_map(
                entries,
            )[entries[i].0] == entries[i].1,
    decreases entries.len(),
{
    if entries.len() > 0 {
        let init = entries.drop_last();
        law_synonyms_last_entry_wins(init);
        assert forall|w: Seq<char>|
            #[trigger] synonym_map(entries).contains_key(w) <==> exists|i: int|
                0 <= i < entries.len() && #[trigger] entries[i].0 == w by {
            if synonym_map(init).contains_key(w) {
                let i = choose|i: int| 0 <= i < init.len() && #[trigger] init[i].0 == w;
                assert(entries[i].0 == w);
            }
            if exists|i: int| 0 <= i < entries.len() && #[trigger] entries[i].0 == w {
                let i = choose|i: int| 0 <= i < entries.len() && #[trigger] entries[i].0 == w;
                if i < entries.len() - 1 {
                    assert(init[i].0 == w);
                }
            }
        }
        assert forall|i: int|
            0 <= i < entries.len() && (forall|j: int|
                i < j < entries.len() ==> entries[j].0 != entries[i].0) implies #[trigger] synonym_map(
            entries,
        )[entries[i].0] == entries[i].1 by {
            if i < entries.len() - 1 {
                assert(init[i] == entries[i]);
                assert(entries[entries.len() - 1].0 != entries[i].0);
                assert forall|j: int| i < j < init.len() implies init[j].0 != init[i].0 by {
                    assert(init[j] == entries[j]);
                }
                assert(synonym_map(init)[init[i].0] == init[i].1);
            }
        }
    }
}

/// In the order of strings, a proper prefix comes first, and otherwise the
/// first character in which two strings differ decides, by its code point.
pub proof fn law_text_order(a: Seq<char>, b: Seq<char>)
    ensures
        a.len() < b.len() && a == b.take(a.len() as int) ==> text_lt(a, b),
        forall|k: int|
            0 <= k < a.len() && k < b.len() && a.take(k) == b.take(k) && a[k] != b[k] ==> (
            text_lt(a, b) <==> (#[trigger] a[k] as int) < (#[trigger] b[k] as int)),
    decreases a.len(),
{
    if a.len() > 0 && b.len() > 0 {
        law_text_order(a.drop_first(), b.drop_first());
        if a.len() < b.len() && a == b.take(a.len() as int) {
            assert(a[0] == b[0]);
            assert(a.drop_first() =~= b.drop_first().take(a.drop_first().len() as int));
        }
        assert forall|k: int|
            0 <= k < a.len() && k < b.len() && a.take(k) == b.take(k) && a[k] != b[k] implies (
            text_lt(a, b) <==> (#[trigger] a[k] as int) < (#[trigger] b[k] as int)) by {
            if k > 0 {
                assert(a[0] == a.take(k)[0]);
                assert(b[0] == b.take(k)[0]);
                assert(a.drop_first().take(k - 1) =~= a.take(k).drop_first());
                assert(b.drop_first().take(k - 1) =~= b.take(k).drop_first());
                assert(a.drop_first()[k - 1] == a[k]);
                assert(b.drop_first()[k - 1] == b[k]);
            }
        }
    }
}

/// A setting is present in settings exactly when its field is.
pub proof fn law_presence_is_by_field(s: Settings)
    ensures
        s.has(Setting::RankingRules) == s.ranking_rules is Some,
        s.has(Setting::DistinctAttribute) == s.distinct_attribute is Some,
        !s.has(Setting::PrimaryKey),
        s.has(Setting::SearchableAttributes) == s.searchable_attributes is Some,
        s.has(Setting::DisplayedAttributes) == s.displayed_attributes is Some,
        s.has(Setting::StopWords) == s.stop_words is Some,
        s.has(Setting::Synonyms) == s.synonyms is Some,
        s.has(Setting::AcceptNewFields) == s.accept_new_fields is Some,
        s.has(Setting::AttributesForFaceting) == s.attributes_for_faceting is Some,
{
}

/// An update resets a setting exactly when its field is `Clear`, and leaves it
/// exactly when its field is `Nothing`.
pub proof fn law_update_effect_is_by_field<R>(u: SettingsUpdate<R>)
    ensures
        u.clears(Setting::RankingRules) == u.ranking_rules is Clear,
        u.clears(Setting::DistinctAttribute) == u.distinct_attribute is Clear,
        u.clears(Setting::PrimaryKey) == u.primary_key is Clear,
        u.clears(Setting::SearchableAttributes) == u.searchable_attributes is Clear,
        u.clears(Setting::DisplayedAttributes) == u.displayed_attributes is Clear,
        u.clears(Setting::StopWords) == u.stop_words is Clear,
        u.clears(Setting::Synonyms) == u.synonyms is Clear,
        u.clears(Setting::AcceptNewFields) == u.accept_new_fields is Clear,
        u.clears(Setting::AttributesForFaceting) == u.attributes_for_faceting is Clear,
        u.leaves(Setting::RankingRules) == u.ranking_rules is Nothing,
        u.leaves(Setting::DistinctAttribute) == u.distinct_attribute is Nothing,
        u.leaves(Setting::PrimaryKey) == u.primary_key is Nothing,
        u.leaves(Setting::SearchableAttributes) == u.searchable_attributes is Nothing,
        u.leaves(Setting::DisplayedAttributes) == u.displayed_attributes is Nothing,
        u.leaves(Setting::StopWords) == u.stop_words is Nothing,
        u.leaves(Setting::Synonyms) == u.synonyms is Nothing,
        u.leaves(Setting::AcceptNewFields) == u.accept_new_fields is Nothing,
        u.leaves(Setting::AttributesForFaceting) == u.attributes_for_faceting is Nothing,
{
}

} // verus!
