use settings_routes::collections::{
    collect_synonyms, contains_string, distinct_strings, sorted_position, sorted_strings,
    word_position,
};
use settings_routes::text::text_less;
use settings_routes::error::{require_index, SettingsError};
use settings_routes::read::{
    accept_new_fields, all_settings, attributes_for_faceting, displayed_attributes,
    distinct_attribute_name, ranking_rules, searchable_attributes, StoredSettings,
};
use settings_routes::schema::Schema;
use settings_routes::settings::{Setting, Settings, SettingsUpdate, UpdateState};
use settings_routes::update::{
    update_accept_new_fields, update_attributes_for_faceting, update_displayed, update_distinct,
    update_or_bad_request, update_rules, update_searchable, write_request,
};

fn s(x: &str) -> String {
    x.to_string()
}

fn strings(xs: &[&str]) -> Vec<String> {
    xs.iter().map(|x| x.to_string()).collect()
}

fn sample_schema() -> Schema {
    Schema {
        fields: vec![(0, s("id")), (1, s("title")), (2, s("genre")), (5, s("year"))],
        indexed: strings(&["title", "genre"]),
        displayed: strings(&["title", "id", "title"]),
        accept_new_fields: true,
    }
}

const ALL: [Setting; 9] = [
    Setting::RankingRules,
    Setting::DistinctAttribute,
    Setting::PrimaryKey,
    Setting::SearchableAttributes,
    Setting::DisplayedAttributes,
    Setting::StopWords,
    Setting::Synonyms,
    Setting::AcceptNewFields,
    Setting::AttributesForFaceting,
];

fn state_of(u: &SettingsUpdate<String>, f: Setting) -> &'static str {
    fn name<T>(st: &UpdateState<T>) -> &'static str {
        match st {
            UpdateState::Update(_) => "update",
            UpdateState::Clear => "clear",
            UpdateState::Nothing => "nothing",
        }
    }
    match f {
        Setting::RankingRules => name(&u.ranking_rules),
        Setting::DistinctAttribute => name(&u.distinct_attribute),
        Setting::PrimaryKey => name(&u.primary_key),
        Setting::SearchableAttributes => name(&u.searchable_attributes),
        Setting::DisplayedAttributes => name(&u.displayed_attributes),
        Setting::StopWords => name(&u.stop_words),
        Setting::Synonyms => name(&u.synonyms),
        Setting::AcceptNewFields => name(&u.accept_new_fields),
        Setting::AttributesForFaceting => name(&u.attributes_for_faceting),
    }
}

fn present(st: &Settings) -> Vec<Setting> {
    let mut v = Vec::new();
    if st.ranking_rules.is_some() {
        v.push(Setting::RankingRules);
    }
    if st.distinct_attribute.is_some() {
        v.push(Setting::DistinctAttribute);
    }
    if st.searchable_attributes.is_some() {
        v.push(Setting::SearchableAttributes);
    }
    if st.displayed_attributes.is_some() {
        v.push(Setting::DisplayedAttributes);
    }
    if st.stop_words.is_some() {
        v.push(Setting::StopWords);
    }
    if st.synonyms.is_some() {
        v.push(Setting::Synonyms);
    }
    if st.accept_new_fields.is_some() {
        v.push(Setting::AcceptNewFields);
    }
    if st.attributes_for_faceting.is_some() {
        v.push(Setting::AttributesForFaceting);
    }
    v
}

fn sample_stored() -> StoredSettings {
    StoredSettings {
        stop_words: strings(&["the", "a", "the", "of"]),
        synonyms: vec![
            (s("car"), strings(&["auto"])),
            (s("tv"), strings(&["television"])),
            (s("car"), strings(&["automobile", "vehicle"])),
        ],
        ranking_rules: None,
        default_ranking_rules: strings(&[
            "typo",
            "words",
            "proximity",
            "attribute",
            "wordsPosition",
            "exactness",
        ]),
        distinct_attribute: Some(2),
        schema: Some(sample_schema()),
        attributes_for_faceting: Some(vec![2, 9, 0]),
    }
}

#[test]
fn require_index_gives_the_opened_index() {
    assert_eq!(require_index(Some(7u32), &s("movies")), Ok(7u32));
}

#[test]
fn require_index_refuses_a_missing_index() {
    assert_eq!(
        require_index::<u32>(None, &s("movies")),
        Err(SettingsError::IndexNotFound(s("movies")))
    );
}

#[test]
fn accepted_update_passes_through() {
    let u: SettingsUpdate<String> = SettingsUpdate::clear_only(Setting::StopWords);
    let expected: SettingsUpdate<String> = SettingsUpdate::clear_only(Setting::StopWords);
    assert_eq!(update_or_bad_request(Ok(u)), Ok(expected));
}

#[test]
fn refused_conversion_is_a_bad_request() {
    let res = update_or_bad_request::<String>(Err(s("invalid ranking rule")));
    assert_eq!(res, Err(SettingsError::BadRequest(s("invalid ranking rule"))));
}

#[test]
fn update_rules_carries_only_the_rules() {
    let st = update_rules(Some(strings(&["typo", "desc(year)"])));
    assert_eq!(st.ranking_rules, Some(Some(strings(&["typo", "desc(year)"]))));
    assert_eq!(present(&st), vec![Setting::RankingRules]);
}

#[test]
fn update_rules_with_null_asks_for_a_reset() {
    let st = update_rules(None);
    assert_eq!(st.ranking_rules, Some(None));
    assert_eq!(present(&st), vec![Setting::RankingRules]);
}

#[test]
fn update_distinct_carries_only_the_distinct_attribute() {
    let st = update_distinct(Some(s("genre")));
    assert_eq!(st.distinct_attribute, Some(Some(s("genre"))));
    assert_eq!(present(&st), vec![Setting::DistinctAttribute]);
}

#[test]
fn update_searchable_carries_only_the_searchable_attributes() {
    let st = update_searchable(Some(strings(&["title"])));
    assert_eq!(st.searchable_attributes, Some(Some(strings(&["title"]))));
    assert_eq!(present(&st), vec![Setting::SearchableAttributes]);
}

#[test]
fn update_displayed_carries_only_the_displayed_attributes() {
    let st = update_displayed(None);
    assert_eq!(st.displayed_attributes, Some(None));
    assert_eq!(present(&st), vec![Setting::DisplayedAttributes]);
}

#[test]
fn update_accept_new_fields_carries_only_that_flag() {
    let st = update_accept_new_fields(Some(false));
    assert_eq!(st.accept_new_fields, Some(Some(false)));
    assert_eq!(present(&st), vec![Setting::AcceptNewFields]);
}

#[test]
fn update_faceting_carries_only_the_attributes_for_faceting() {
    let st = update_attributes_for_faceting(Some(strings(&["genre"])));
    assert_eq!(st.attributes_for_faceting, Some(Some(strings(&["genre"]))));
    assert_eq!(present(&st), vec![Setting::AttributesForFaceting]);
}

#[test]
fn absent_settings_hold_nothing() {
    assert!(present(&Settings::absent()).is_empty());
}

#[test]
fn unchanged_update_leaves_everything() {
    let u: SettingsUpdate<String> = SettingsUpdate::unchanged();
    for f in ALL {
        assert_eq!(state_of(&u, f), "nothing");
    }
}

#[test]
fn clear_all_resets_everything_including_the_primary_key() {
    let u: SettingsUpdate<String> = SettingsUpdate::clear_all();
    for f in ALL {
        assert_eq!(state_of(&u, f), "clear");
    }
}

#[test]
fn clear_only_resets_one_setting_and_leaves_the_others() {
    for target in ALL {
        let u: SettingsUpdate<String> = SettingsUpdate::clear_only(target);
        for f in ALL {
            let expected = if f == target { "clear" } else { "nothing" };
            assert_eq!(state_of(&u, f), expected);
        }
    }
}

#[test]
fn stored_ranking_rules_win_over_the_defaults() {
    let r = ranking_rules(Some(strings(&["asc(year)"])), strings(&["typo", "words"]));
    assert_eq!(r, strings(&["asc(year)"]));
}

#[test]
fn default_ranking_rules_apply_when_none_are_stored() {
    let r = ranking_rules(None, strings(&["typo", "words"]));
    assert_eq!(r, strings(&["typo", "words"]));
}

#[test]
fn schema_names_a_known_field() {
    let schema = sample_schema();
    assert_eq!(schema.name(5), Some(s("year")));
    assert_eq!(schema.name(3), None);
}

#[test]
fn distinct_attribute_is_named_by_the_schema() {
    let schema = Some(sample_schema());
    assert_eq!(distinct_attribute_name(Some(1), &schema), Some(s("title")));
    assert_eq!(distinct_attribute_name(Some(4), &schema), None);
    assert_eq!(distinct_attribute_name(None, &schema), None);
    assert_eq!(distinct_attribute_name(Some(1), &None), None);
}

#[test]
fn searchable_attributes_keep_their_order() {
    assert_eq!(searchable_attributes(&Some(sample_schema())), Some(strings(&["title", "genre"])));
    assert_eq!(searchable_attributes(&None), None);
}

#[test]
fn displayed_attributes_hold_each_name_once() {
    assert_eq!(displayed_attributes(&Some(sample_schema())), Some(strings(&["title", "id"])));
    assert_eq!(displayed_attributes(&None), None);
}

#[test]
fn accept_new_fields_comes_from_the_schema() {
    assert_eq!(accept_new_fields(&Some(sample_schema())), Some(true));
    assert_eq!(accept_new_fields(&None), None);
}

#[test]
fn faceting_names_skip_unknown_ids() {
    let schema = Some(sample_schema());
    let names = attributes_for_faceting(&schema, &Some(vec![5, 7, 1, 0]));
    assert_eq!(names, strings(&["year", "title", "id"]));
}

#[test]
fn faceting_names_need_a_schema_and_ids() {
    assert!(attributes_for_faceting(&None, &Some(vec![1])).is_empty());
    assert!(attributes_for_faceting(&Some(sample_schema()), &None).is_empty());
}

#[test]
fn contains_string_compares_contents() {
    let v = strings(&["a", "bc"]);
    assert!(contains_string(&v, &s("bc")));
    assert!(!contains_string(&v, &s("b")));
}

#[test]
fn distinct_strings_keep_first_occurrences() {
    let v = strings(&["b", "a", "b", "c", "a"]);
    assert_eq!(distinct_strings(&v), strings(&["b", "a", "c"]));
    assert!(distinct_strings(&Vec::new()).is_empty());
}

#[test]
fn word_position_finds_the_place_of_a_word() {
    let entries = vec![(s("b"), strings(&["y"])), (s("d"), Vec::new())];
    assert_eq!(word_position(&entries, &s("a")), 0);
    assert_eq!(word_position(&entries, &s("d")), 1);
    assert_eq!(word_position(&entries, &s("e")), 2);
}

#[test]
fn sorted_position_finds_the_place_of_a_string() {
    let v = strings(&["b", "d"]);
    assert_eq!(sorted_position(&v, &s("c")), 1);
    assert_eq!(sorted_position(&v, &s("b")), 0);
    assert_eq!(sorted_position(&v, &s("z")), 2);
}

#[test]
fn text_order_is_by_code_points_with_prefixes_first() {
    assert!(text_less(&s("ab"), &s("b")));
    assert!(text_less(&s("ab"), &s("abc")));
    assert!(!text_less(&s("abc"), &s("ab")));
    assert!(!text_less(&s("x"), &s("x")));
    assert!(text_less(&s("Z"), &s("a")));
    assert!(text_less(&s("z"), &s("é")));
    assert!(text_less(&s(""), &s("a")));
}

#[test]
fn sorted_strings_give_an_ascending_set() {
    let v = strings(&["the", "a", "the", "of", "é", "b"]);
    assert_eq!(sorted_strings(&v), strings(&["a", "b", "of", "the", "é"]));
    assert!(sorted_strings(&Vec::new()).is_empty());
}

#[test]
fn synonym_words_come_out_sorted() {
    let entries = vec![(s("tv"), strings(&["television"])), (s("car"), strings(&["auto"]))];
    assert_eq!(
        collect_synonyms(&entries),
        vec![(s("car"), strings(&["auto"])), (s("tv"), strings(&["television"]))]
    );
}

#[test]
fn write_request_refuses_a_missing_index_first() {
    let res = write_request::<u32, String>(None, &s("movies"), Err(s("bad rule")));
    assert_eq!(res, Err(SettingsError::IndexNotFound(s("movies"))));
}

#[test]
fn write_request_refuses_a_bad_body_of_an_existing_index() {
    let res = write_request::<u32, String>(Some(3), &s("movies"), Err(s("bad rule")));
    assert_eq!(res, Err(SettingsError::BadRequest(s("bad rule"))));
}

#[test]
fn write_request_gives_the_index_and_the_update() {
    let u: SettingsUpdate<String> = SettingsUpdate::clear_only(Setting::Synonyms);
    let expected: SettingsUpdate<String> = SettingsUpdate::clear_only(Setting::Synonyms);
    assert_eq!(write_request(Some(3u32), &s("movies"), Ok(u)), Ok((3u32, expected)));
}

#[test]
fn later_synonyms_replace_earlier_ones() {
    let entries = vec![
        (s("car"), strings(&["auto"])),
        (s("tv"), strings(&["television"])),
        (s("car"), strings(&["automobile"])),
    ];
    let collected = collect_synonyms(&entries);
    assert_eq!(
        collected,
        vec![(s("car"), strings(&["automobile"])), (s("tv"), strings(&["television"]))]
    );
}

#[test]
fn full_read_assembles_every_setting() {
    let st = all_settings(sample_stored());
    assert_eq!(
        st.ranking_rules,
        Some(Some(strings(&[
            "typo",
            "words",
            "proximity",
            "attribute",
            "wordsPosition",
            "exactness"
        ])))
    );
    assert_eq!(st.distinct_attribute, Some(Some(s("genre"))));
    assert_eq!(st.searchable_attributes, Some(Some(strings(&["title", "genre"]))));
    assert_eq!(st.displayed_attributes, Some(Some(strings(&["title", "id"]))));
    assert_eq!(st.stop_words, Some(Some(strings(&["a", "of", "the"]))));
    assert_eq!(
        st.synonyms,
        Some(Some(vec![
            (s("car"), strings(&["automobile", "vehicle"])),
            (s("tv"), strings(&["television"]))
        ]))
    );
    assert_eq!(st.accept_new_fields, Some(Some(true)));
    assert_eq!(st.attributes_for_faceting, Some(Some(strings(&["genre", "id"]))));
}

#[test]
fn full_read_without_a_schema() {
    let mut stored = sample_stored();
    stored.schema = None;
    stored.ranking_rules = Some(strings(&["words"]));
    let st = all_settings(stored);
    assert_eq!(st.ranking_rules, Some(Some(strings(&["words"]))));
    assert_eq!(st.distinct_attribute, Some(None));
    assert_eq!(st.searchable_attributes, Some(None));
    assert_eq!(st.displayed_attributes, Some(None));
    assert_eq!(st.accept_new_fields, Some(None));
    assert_eq!(st.attributes_for_faceting, Some(Some(Vec::new())));
}

#[test]
fn full_read_agrees_with_single_reads() {
    let stored = sample_stored();
    let schema = Some(sample_schema());
    let facets = Some(vec![2, 9, 0]);
    let st = all_settings(stored);
    let rules = ranking_rules(None, sample_stored().default_ranking_rules);
    assert_eq!(st.ranking_rules, Some(Some(rules)));
    assert_eq!(st.searchable_attributes, Some(searchable_attributes(&schema)));
    assert_eq!(st.displayed_attributes, Some(displayed_attributes(&schema)));
    assert_eq!(st.accept_new_fields, Some(accept_new_fields(&schema)));
    assert_eq!(
        st.attributes_for_faceting,
        Some(Some(attributes_for_faceting(&schema, &facets)))
    );
}

#[test]
fn faceting_names_come_from_the_schema() {
    let schema = sample_schema();
    let ids = vec![5, 8, 2, 1];
    let names = attributes_for_faceting(&Some(sample_schema()), &Some(ids.clone()));
    assert!(names.len() <= ids.len());
    for n in &names {
        assert!(ids.iter().any(|id| schema.name(*id).as_ref() == Some(n)));
    }
}
