use vstd::prelude::*;
use crate::collections::{
    collect_synonyms, distinct_strings, first_occurrences, sorted_strings, words_of,
};
use crate::text::strictly_sorted;
use crate::schema::{field_name, Schema};
use crate::settings::{string_set, Setting, synonym_map, Settings, SettingsView};

verus! {

/// What the settings of an index are read from: the values stored for it,
/// with its schema when it has one. Ranking rules are in their text form, and
/// `default_ranking_rules` are those that apply when none are stored.
pub struct StoredSettings {
    pub stop_words: Vec<String>,
    pub synonyms: Vec<(String, Vec<String>)>,
    pub ranking_rules: Option<Vec<String>>,
    pub default_ranking_rules: Vec<String>,
    pub distinct_attribute: Option<u16>,
    pub schema: Option<Schema>,
    pub attributes_for_faceting: Option<Vec<u16>>,
}

/// The ranking rules in force: the stored ones, else the default ones.
pub open spec fn rules_in_force(stored: Option<Vec<String>>, defaults: Vec<String>) -> Seq<
    Seq<char>,
> {
    match stored {
        Some(rules) => rules.deep_view(),
        None => defaults.deep_view(),
    }
}

/// The name of the distinct attribute: that of its field id in the schema,
/// when both are known.
pub open spec fn distinct_name(distinct: Option<u16>, schema: Option<Schema>) -> Option<Seq<char>> {
    match (distinct, schema) {
        (Some(id), Some(s)) => s.name_of(id),
        _ => None,
    }
}

/// The names of the field ids `ids` that `fields` knows, in the order of the
/// ids; ids that it does not know are skipped.
pub open spec fn known_names(fields: Seq<(u16, String)>, ids: Seq<u16>) -> Seq<Seq<char>>
    decreases ids.len(),
{
    if ids.len() == 0 {
        Seq::empty()
    } else {
        let init = known_names(fields, ids.drop_last());
        match field_name(fields, ids.last()) {
            Some(n) => init.push(n),
            None => init,
        }
    }
}

/// The names of the attributes for faceting: empty unless the index has both a
/// schema and faceted field ids.
pub open spec fn faceting_names(schema: Option<Schema>, ids: Option<Vec<u16>>) -> Seq<Seq<char>> {
    match (schema, ids) {
        (Some(s), Some(ids)) => known_names(s.fields@, ids@),
        _ => Seq::empty(),
    }
}

/// The searchable attributes, when the index has a schema.
pub open spec fn searchable_names(schema: Option<Schema>) -> Option<Seq<Seq<char>>> {
    match schema {
        Some(s) => Some(s.indexed.deep_view()),
        None => None,
    }
}

/// The set of displayed attributes, when the index has a schema.
pub open spec fn displayed_names(schema: Option<Schema>) -> Option<Set<Seq<char>>> {
    match schema {
        Some(s) => Some(string_set(s.displayed)),
        None => None,
    }
}

/// Whether new fields are accepted, when the index has a schema.
pub open spec fn accepts_new_fields(schema: Option<Schema>) -> Option<bool> {
    match schema {
        Some(s) => Some(s.accept_new_fields),
        None => None,
    }
}

/// Every setting of an index, as its full read gives them: each one present.
pub open spec fn full_read(stored: StoredSettings) -> SettingsView {
    SettingsView {
        ranking_rules: Some(Some(rules_in_force(stored.ranking_rules, stored.default_ranking_rules))),
        distinct_attribute: Some(distinct_name(stored.distinct_attribute, stored.schema)),
        searchable_attributes: Some(searchable_names(stored.schema)),
        displayed_attributes: Some(displayed_names(stored.schema)),
        stop_words: Some(Some(string_set(stored.stop_words))),
        synonyms: Some(Some(synonym_map(stored.synonyms.deep_view()))),
        accept_new_fields: Some(accepts_new_fields(stored.schema)),
        attributes_for_faceting: Some(
            Some(faceting_names(stored.schema, stored.attributes_for_faceting)),
        ),
    }
}

/// The ranking rules of an index: the stored ones, else the default ones.
pub fn ranking_rules(stored: Option<Vec<String>>, defaults: Vec<String>) -> (res: Vec<String>)
    ensures
        res.deep_view() == rules_in_force(stored, defaults),
{
    match stored {
        Some(rules) => rules,
        None => defaults,
    }
}

/// The name of the distinct attribute, when the index has one and a schema
/// that names it.
pub fn distinct_attribute_name(distinct: Option<u16>, schema: &Option<Schema>) -> (res: Option<
    String,
>)
    ensures
        res.deep_view() == distinct_name(distinct, *schema),
{
    match (distinct, schema) {
        (Some(id), Some(s)) => s.name(id),
        _ => None,
    }
}

/// The searchable attributes of an index, in their order, when it has a schema.
pub fn searchable_attributes(schema: &Option<Schema>) -> (res: Option<Vec<String>>)
    ensures
        res.deep_view() == searchable_names(*schema),
{
    match schema {
        Some(s) => {
            let names = s.indexed.clone();
            assert(names.deep_view() =~= s.indexed.deep_view());
            Some(names)
        },
        None => None,
    }
}

/// The displayed attributes of an index, each once, when it has a schema.
pub fn displayed_attributes(schema: &Option<Schema>) -> (res: Option<Vec<String>>)
    ensures
        res.deep_view() == match *schema {
            Some(s) => Some(first_occurrences(s.displayed.deep_view())),
            None => None,
        },
        res matches Some(v) ==> v.deep_view().no_duplicates(),
        match res {
            Some(v) => displayed_names(*schema) == Some(string_set(v)),
            None => displayed_names(*schema) is None,
        },
{
    match schema {
        Some(s) => Some(distinct_strings(&s.displayed)),
        None => None,
    }
}

/// Whether an index accepts new fields, when it has a schema.
pub fn accept_new_fields(schema: &Option<Schema>) -> (res: Option<bool>)
    ensures
        res == accepts_new_fields(*schema),
{
    match schema {
        Some(s) => Some(s.accept_new_fields),
        None => None,
    }
}

/// The names of the attributes for faceting, in the order of their ids; ids
/// that the schema does not know are skipped, and without a schema or faceted
/// ids there are none.
pub fn attributes_for_faceting(schema: &Option<Schema>, ids: &Option<Vec<u16>>) -> (res: Vec<
    String,
>)
    ensures
        res.deep_view() == faceting_names(*schema, *ids),
{
    let mut res: Vec<String> = Vec::new();
    match (schema, ids) {
        (Some(s), Some(ids)) => {
            let n = ids.len();
            assert(ids@.take(0) =~= Seq::<u16>::empty());
            assert(res.deep_view() =~= Seq::<Seq<char>>::empty());
            for i in 0..n
                invariant
                    n == ids@.len(),
                    res.deep_view() == known_names(s.fields@, ids@.take(i as int)),
            {
                let ghost before = res.deep_view();
                assert(ids@.take(i + 1).drop_last() =~= ids@.take(i as int));
                assert(ids@.take(i + 1).last() == ids@[i as int]);
                match s.name(ids[i]) {
                    Some(name) => {
                        res.push(name);
                        assert(res.deep_view() =~= before.push(name@));
                    },
                    None => {},
                }
            }
            assert(ids@.take(n as int) =~= ids@);
        },
        _ => {},
    }
    res
}

/// Every setting of an index, assembled from what is stored for it: each one
/// is present, the displayed attributes hold each name once, the stop words
/// come each once in ascending order, and the synonyms each word once, the
/// words in ascending order.
pub fn all_settings(stored: StoredSettings) -> (res: Settings)
    ensures
        res@ == full_read(stored),
        res.well_formed(),
        res.stop_words matches Some(Some(v)) && strictly_sorted(v.deep_view()),
        res.synonyms matches Some(Some(v)) && strictly_sorted(words_of(v.deep_view())),
        forall|f: Setting| res.has(f) <==> f != Setting::PrimaryKey,
{
    let stop_words = sorted_strings(&stored.stop_words);
    let synonyms = collect_synonyms(&stored.synonyms);
    let distinct = distinct_attribute_name(stored.distinct_attribute, &stored.schema);
    let faceting = attributes_for_faceting(&stored.schema, &stored.attributes_for_faceting);
    let searchable = searchable_attributes(&stored.schema);
    let displayed = displayed_attributes(&stored.schema);
    let accept = accept_new_fields(&stored.schema);
    let rules = ranking_rules(stored.ranking_rules, stored.default_ranking_rules);
    Settings {
        ranking_rules: Some(Some(rules)),
        distinct_attribute: Some(distinct),
        searchable_attributes: Some(searchable),
        displayed_attributes: Some(displayed),
        stop_words: Some(Some(stop_words)),
        synonyms: Some(Some(synonyms)),
        accept_new_fields: Some(accept),
        attributes_for_faceting: Some(Some(faceting)),
    }
}

} // verus!
