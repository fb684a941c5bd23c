use vstd::prelude::*;
use crate::error::{require_index, SettingsError};
use crate::settings::{Setting, Settings, SettingsUpdate};

verus! {

/// The settings that a request to set the ranking rules carries: the rules,
/// where `None` resets them, and no other setting.
pub fn update_rules(body: Option<Vec<String>>) -> (s: Settings)
    ensures
        s.ranking_rules == Some(body),
        forall|f: Setting| s.has(f) <==> f == Setting::RankingRules,
{
    Settings { ranking_rules: Some(body), ..Settings::absent() }
}

/// The settings that a request to set the distinct attribute carries.
pub fn update_distinct(body: Option<String>) -> (s: Settings)
    ensures
        s.distinct_attribute == Some(body),
        forall|f: Setting| s.has(f) <==> f == Setting::DistinctAttribute,
{
    Settings { distinct_attribute: Some(body), ..Settings::absent() }
}

/// The settings that a request to set the searchable attributes carries.
pub fn update_searchable(body: Option<Vec<String>>) -> (s: Settings)
    ensures
        s.searchable_attributes == Some(body),
        forall|f: Setting| s.has(f) <==> f == Setting::SearchableAttributes,
{
    Settings { searchable_attributes: Some(body), ..Settings::absent() }
}

/// The settings that a request to set the displayed attributes carries.
pub fn update_displayed(body: Option<Vec<String>>) -> (s: Settings)
    ensures
        s.displayed_attributes == Some(body),
        forall|f: Setting| s.has(f) <==> f == Setting::DisplayedAttributes,
{
    Settings { displayed_attributes: Some(body), ..Settings::absent() }
}

/// The settings that a request to set whether new fields are accepted carries.
pub fn update_accept_new_fields(body: Option<bool>) -> (s: Settings)
    ensures
        s.accept_new_fields == Some(body),
        forall|f: Setting| s.has(f) <==> f == Setting::AcceptNewFields,
{
    Settings { accept_new_fields: Some(body), ..Settings::absent() }
}

/// The settings that a request to set the attributes for faceting carries.
pub fn update_attributes_for_faceting(body: Option<Vec<String>>) -> (s: Settings)
    ensures
        s.attributes_for_faceting == Some(body),
        forall|f: Setting| s.has(f) <==> f == Setting::AttributesForFaceting,
{
    Settings { attributes_for_faceting: Some(body), ..Settings::absent() }
}

/// Accepts the update that settings were turned into, or refuses the request
/// as a bad one, with the reason why they could not be turned into an update.
pub fn update_or_bad_request<R>(converted: Result<SettingsUpdate<R>, String>) -> (res: Result<
    SettingsUpdate<R>,
    SettingsError,
>)
    ensures
        match converted {
            Ok(u) => res == Ok::<SettingsUpdate<R>, SettingsError>(u),
            Err(reason) => res == Err::<SettingsUpdate<R>, SettingsError>(
                SettingsError::BadRequest(reason),
            ),
        },
{
    match converted {
        Ok(u) => Ok(u),
        Err(reason) => Err(SettingsError::BadRequest(reason)),
    }
}

/// The index and the update that a write request makes, or its first
/// refusal: a missing index is refused before settings that could not be
/// turned into an update.
pub fn write_request<I, R>(
    index: Option<I>,
    uid: &String,
    converted: Result<SettingsUpdate<R>, String>,
) -> (res: Result<(I, SettingsUpdate<R>), SettingsError>)
    ensures
        match (index, converted) {
            (None, _) => res == Err::<(I, SettingsUpdate<R>), SettingsError>(
                SettingsError::IndexNotFound(*uid),
            ),
            (Some(i), Err(reason)) => res == Err::<(I, SettingsUpdate<R>), SettingsError>(
                SettingsError::BadRequest(reason),
            ),
            (Some(i), Ok(u)) => res == Ok::<(I, SettingsUpdate<R>), SettingsError>((i, u)),
        },
{
    let index = match require_index(index, uid) {
        Ok(i) => i,
        Err(e) => return Err(e),
    };
    match update_or_bad_request(converted) {
        Ok(u) => Ok((index, u)),
        Err(e) => Err(e),
    }
}

} // verus!
