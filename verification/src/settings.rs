use vstd::prelude::*;

verus! {

/// The settings of an index, each by its name.
#[derive(Debug, Clone, Copy, PartialEq, Eq, Structural)]
pub enum Setting {
    RankingRules,
    DistinctAttribute,
    PrimaryKey,
    SearchableAttributes,
    DisplayedAttributes,
    StopWords,
    Synonyms,
    AcceptNewFields,
    AttributesForFaceting,
}

/// What an update does to one setting: write a new value, reset it, or leave it.
#[derive(Debug, PartialEq, Eq)]
pub enum UpdateState<T> {
    Update(T),
    Clear,
    Nothing,
}

/// Settings as a request carries them or a read returns them.
///
/// The outer `Option` says whether the setting is present at all; the inner one
/// is the value, where `None` asks for the setting to be reset. Displayed
/// attributes and stop words are sets, and synonyms a map from a word to its
/// synonyms: their lists mean the set of their items, and the map in which a
/// later entry for a word replaces an earlier one (see `synonym_map`).
#[derive(Debug, PartialEq, Eq)]
pub struct Settings {
    pub ranking_rules: Option<Option<Vec<String>>>,
    pub distinct_attribute: Option<Option<String>>,
    pub searchable_attributes: Option<Option<Vec<String>>>,
    pub displayed_attributes: Option<Option<Vec<String>>>,
    pub stop_words: Option<Option<Vec<String>>>,
    pub synonyms: Option<Option<Vec<(String, Vec<String>)>>>,
    pub accept_new_fields: Option<Option<bool>>,
    pub attributes_for_faceting: Option<Option<Vec<String>>>,
}

/// The changes that one settings update makes to an index; `R` is the type of a
/// ranking rule.
#[derive(Debug, PartialEq, Eq)]
pub struct SettingsUpdate<R> {
    pub ranking_rules: UpdateState<Vec<R>>,
    pub distinct_attribute: UpdateState<String>,
    pub primary_key: UpdateState<String>,
    pub searchable_attributes: UpdateState<Vec<String>>,
    pub displayed_attributes: UpdateState<Vec<String>>,
    pub stop_words: UpdateState<Vec<String>>,
    pub synonyms: UpdateState<Vec<(String, Vec<String>)>>,
    pub accept_new_fields: UpdateState<bool>,
    pub attributes_for_faceting: UpdateState<Vec<String>>,
}

/// The meaning of `Settings`: lists of strings as sequences, the set-valued
/// settings as sets, and the synonyms as a map.
pub struct SettingsView {
    pub ranking_rules: Option<Option<Seq<Seq<char>>>>,
    pub distinct_attribute: Option<Option<Seq<char>>>,
    pub searchable_attributes: Option<Option<Seq<Seq<char>>>>,
    pub displayed_attributes: Option<Option<Set<Seq<char>>>>,
    pub stop_words: Option<Option<Set<Seq<char>>>>,
    pub synonyms: Option<Option<Map<Seq<char>, Seq<Seq<char>>>>>,
    pub accept_new_fields: Option<Option<bool>>,
    pub attributes_for_faceting: Option<Option<Seq<Seq<char>>>>,
}

/// The set that a list of strings denotes.
pub open spec fn string_set(v: Vec<String>) -> Set<Seq<char>> {
    v.deep_view().to_set()
}

/// The view of a setting that holds a set of strings.
pub open spec fn set_setting(v: Option<Option<Vec<String>>>) -> Option<Option<Set<Seq<char>>>> {
    match v {
        Some(Some(items)) => Some(Some(string_set(items))),
        Some(None) => Some(None),
        None => None,
    }
}

/// The view of the synonyms setting.
pub open spec fn synonyms_setting(v: Option<Option<Vec<(String, Vec<String>)>>>) -> Option<
    Option<Map<Seq<char>, Seq<Seq<char>>>>,
> {
    match v {
        Some(Some(entries)) => Some(Some(synonym_map(entries.deep_view()))),
        Some(None) => Some(None),
        None => None,
    }
}

impl View for Settings {
    type V = SettingsView;

    open spec fn view(&self) -> SettingsView {
        SettingsView {
            ranking_rules: self.ranking_rules.deep_view(),
            distinct_attribute: self.distinct_attribute.deep_view(),
            searchable_attributes: self.searchable_attributes.deep_view(),
            displayed_attributes: set_setting(self.displayed_attributes),
            stop_words: set_setting(self.stop_words),
            synonyms: synonyms_setting(self.synonyms),
            accept_new_fields: self.accept_new_fields,
            attributes_for_faceting: self.attributes_for_faceting.deep_view(),
        }
    }
}

/// The map that a list of (word, synonyms) entries denotes: entries are taken
/// in order, and a later entry for a word replaces an earlier one.
pub open spec fn synonym_map(entries: Seq<(Seq<char>, Seq<Seq<char>>)>) -> Map<
    Seq<char>,
    Seq<Seq<char>>,
>
    decreases entries.len(),
{
    if entries.len() == 0 {
        Map::empty()
    } else {
        synonym_map(entries.drop_last()).insert(entries.last().0, entries.last().1)
    }
}

/// No word occurs twice among the keys of `entries`.
pub open spec fn distinct_keys(entries: Seq<(Seq<char>, Seq<Seq<char>>)>) -> bool {
    forall|i: int, j: int|
        0 <= i < entries.len() && 0 <= j < entries.len() && i != j ==> #[trigger] entries[i].0
            != #[trigger] entries[j].0
}

impl<T> UpdateState<T> {
    pub open spec fn is_clear(self) -> bool {
        self is Clear
    }

    pub open spec fn is_nothing(self) -> bool {
        self is Nothing
    }
}

impl Settings {
    /// The lists that stand for sets hold each item once, and the synonyms
    /// hold each word once.
    pub open spec fn well_formed(self) -> bool {
        &&& (self.displayed_attributes matches Some(Some(v)) ==> v.deep_view().no_duplicates())
        &&& (self.stop_words matches Some(Some(v)) ==> v.deep_view().no_duplicates())
        &&& (self.synonyms matches Some(Some(v)) ==> distinct_keys(v.deep_view()))
    }

    /// Whether the setting `s` is present in these settings. A primary key is
    /// never part of them.
    pub open spec fn has(self, s: Setting) -> bool {
        match s {
            Setting::RankingRules => self.ranking_rules is Some,
            Setting::DistinctAttribute => self.distinct_attribute is Some,
            Setting::PrimaryKey => false,
            Setting::SearchableAttributes => self.searchable_attributes is Some,
            Setting::DisplayedAttributes => self.displayed_attributes is Some,
            Setting::StopWords => self.stop_words is Some,
            Setting::Synonyms => self.synonyms is Some,
            Setting::AcceptNewFields => self.accept_new_fields is Some,
            Setting::AttributesForFaceting => self.attributes_for_faceting is Some,
        }
    }

    /// Settings in which no setting is present.
    pub fn absent() -> (s: Settings)
        ensures
            forall|f: Setting| !s.has(f),
            s.ranking_rules is None,
            s.distinct_attribute is None,
            s.searchable_attributes is None,
            s.displayed_attributes is None,
            s.stop_words is None,
            s.synonyms is None,
            s.accept_new_fields is None,
            s.attributes_for_faceting is None,
    {
        Settings {
            ranking_rules: None,
            distinct_attribute: None,
            searchable_attributes: None,
            displayed_attributes: None,
            stop_words: None,
            synonyms: None,
            accept_new_fields: None,
            attributes_for_faceting: None,
        }
    }
}

impl<R> SettingsUpdate<R> {
    /// Whether this update resets the setting `s`.
    pub open spec fn clears(self, s: Setting) -> bool {
        match s {
            Setting::RankingRules => self.ranking_rules.is_clear(),
            Setting::DistinctAttribute => self.distinct_attribute.is_clear(),
            Setting::PrimaryKey => self.primary_key.is_clear(),
            Setting::SearchableAttributes => self.searchable_attributes.is_clear(),
            Setting::DisplayedAttributes => self.displayed_attributes.is_clear(),
            Setting::StopWords => self.stop_words.is_clear(),
            Setting::Synonyms => self.synonyms.is_clear(),
            Setting::AcceptNewFields => self.accept_new_fields.is_clear(),
            Setting::AttributesForFaceting => self.attributes_for_faceting.is_clear(),
        }
    }

    /// Whether this update leaves the setting `s` as it is.
    pub open spec fn leaves(self, s: Setting) -> bool {
        match s {
            Setting::RankingRules => self.ranking_rules.is_nothing(),
            Setting::DistinctAttribute => self.distinct_attribute.is_nothing(),
            Setting::PrimaryKey => self.primary_key.is_nothing(),
            Setting::SearchableAttributes => self.searchable_attributes.is_nothing(),
            Setting::DisplayedAttributes => self.displayed_attributes.is_nothing(),
            Setting::StopWords => self.stop_words.is_nothing(),
            Setting::Synonyms => self.synonyms.is_nothing(),
            Setting::AcceptNewFields => self.accept_new_fields.is_nothing(),
            Setting::AttributesForFaceting => self.attributes_for_faceting.is_nothing(),
        }
    }

    /// The update that changes nothing.
    pub fn unchanged() -> (u: SettingsUpdate<R>)
        ensures
            forall|f: Setting| u.leaves(f),
    {
        SettingsUpdate {
            ranking_rules: UpdateState::Nothing,
            distinct_attribute: UpdateState::Nothing,
            primary_key: UpdateState::Nothing,
            searchable_attributes: UpdateState::Nothing,
            displayed_attributes: UpdateState::Nothing,
            stop_words: UpdateState::Nothing,
            synonyms: UpdateState::Nothing,
            accept_new_fields: UpdateState::Nothing,
            attributes_for_faceting: UpdateState::Nothing,
        }
    }

    /// The update that resets every setting, the primary key included.
    pub fn clear_all() -> (u: SettingsUpdate<R>)
        ensures
            forall|f: Setting| u.clears(f),
    {
        SettingsUpdate {
            ranking_rules: UpdateState::Clear,
            distinct_attribute: UpdateState::Clear,
            primary_key: UpdateState::Clear,
            searchable_attributes: UpdateState::Clear,
            displayed_attributes: UpdateState::Clear,
            stop_words: UpdateState::Clear,
            synonyms: UpdateState::Clear,
            accept_new_fields: UpdateState::Clear,
            attributes_for_faceting: UpdateState::Clear,
        }
    }

    /// The update that resets the setting `s` and leaves every other one.
    pub fn clear_only(s: Setting) -> (u: SettingsUpdate<R>)
        ensures
            forall|f: Setting| u.clears(f) <==> f == s,
            forall|f: Setting| u.leaves(f) <==> f != s,
    {
        let mut u = Self::unchanged();
        assert(u.leaves(Setting::RankingRules) && u.leaves(Setting::DistinctAttribute)
            && u.leaves(Setting::PrimaryKey) && u.leaves(Setting::SearchableAttributes)
            && u.leaves(Setting::DisplayedAttributes) && u.leaves(Setting::StopWords)
            && u.leaves(Setting::Synonyms) && u.leaves(Setting::AcceptNewFields)
            && u.leaves(Setting::AttributesForFaceting));
        match s {
            Setting::RankingRules => u.ranking_rules = UpdateState::Clear,
            Setting::DistinctAttribute => u.distinct_attribute = UpdateState::Clear,
            Setting::PrimaryKey => u.primary_key = UpdateState::Clear,
            Setting::SearchableAttributes => u.searchable_attributes = UpdateState::Clear,
            Setting::DisplayedAttributes => u.displayed_attributes = UpdateState::Clear,
            Setting::StopWords => u.stop_words = UpdateState::Clear,
            Setting::Synonyms => u.synonyms = UpdateState::Clear,
            Setting::AcceptNewFields => u.accept_new_fields = UpdateState::Clear,
            Setting::AttributesForFaceting => u.attributes_for_faceting = UpdateState::Clear,
        }
        u
    }
}

} // verus!
