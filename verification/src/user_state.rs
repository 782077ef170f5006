//! Per-chat preferences of the bot (output style and language), held in
//! `dashmap` maps.
use dashmap::DashMap;

use vstd::prelude::*;

use crate::value::{normalize_language, FormattedOutputStyle, LanguageIso};

verus! {

#[verifier::external_type_specification]
#[verifier::external_body]
#[verifier::reject_recursive_types(K)]
#[verifier::reject_recursive_types(V)]
#[verifier::reject_recursive_types(S)]
pub struct ExDashMap<K, V, S>(DashMap<K, V, S>);

/// What a style map holds: each chat's style.
pub uninterp spec fn style_entries(m: DashMap<i64, FormattedOutputStyle>) -> Map<
    i64,
    FormattedOutputStyle,
>;

/// What a language map holds: each chat's language.
pub uninterp spec fn language_entries(m: DashMap<i64, LanguageIso>) -> Map<i64, LanguageIso>;

/// Calls `DashMap::new`: a map that holds nothing.
#[verifier::external_body]
fn new_style_map() -> (r: DashMap<i64, FormattedOutputStyle>)
    ensures
        style_entries(r).dom().is_empty(),
{
    DashMap::new()
}

/// Calls `DashMap::new`: a map that holds nothing.
#[verifier::external_body]
fn new_language_map() -> (r: DashMap<i64, LanguageIso>)
    ensures
        language_entries(r).dom().is_empty(),
{
    DashMap::new()
}

/// Calls `DashMap::get` and copies the value out: the style stored for
/// `chat_id`, if any.
#[verifier::external_body]
fn get_style(m: &DashMap<i64, FormattedOutputStyle>, chat_id: i64) -> (r: Option<
    FormattedOutputStyle,
>)
    ensures
        match r {
            Some(v) => style_entries(*m).dom().contains(chat_id) && style_entries(*m)[chat_id]
                == v,
            None => !style_entries(*m).dom().contains(chat_id),
        },
{
    m.get(&chat_id).map(|v| *v)
}

/// Calls `DashMap::get` and clones the value out (with the library's
/// `Clone`, which keeps the value): the language stored for `chat_id`, if any.
#[verifier::external_body]
fn get_language(m: &DashMap<i64, LanguageIso>, chat_id: i64) -> (r: Option<LanguageIso>)
    ensures
        match r {
            Some(v) => language_entries(*m).dom().contains(chat_id) && language_entries(
                *m,
            )[chat_id] == v,
            None => !language_entries(*m).dom().contains(chat_id),
        },
{
    m.get(&chat_id).map(|v| v.clone())
}

/// Calls `DashMap::insert`: the map then holds `style` for `chat_id`, and
/// every other entry as before.
#[verifier::external_body]
fn put_style(m: &mut DashMap<i64, FormattedOutputStyle>, chat_id: i64, style: FormattedOutputStyle)
    ensures
        style_entries(*final(m)) == style_entries(*old(m)).insert(chat_id, style),
{
    m.insert(chat_id, style);
}

/// Calls `DashMap::insert`: the map then holds `language` for `chat_id`,
/// and every other entry as before.
#[verifier::external_body]
fn put_language(m: &mut DashMap<i64, LanguageIso>, chat_id: i64, language: LanguageIso)
    ensures
        language_entries(*final(m)) == language_entries(*old(m)).insert(chat_id, language),
{
    m.insert(chat_id, language);
}

/// Per-chat preferences: the style and the language of each chat.
#[derive(Debug)]
pub struct InMemUserState {
    style: DashMap<i64, FormattedOutputStyle>,
    language: DashMap<i64, LanguageIso>,
}

impl View for InMemUserState {
    type V = (Map<i64, FormattedOutputStyle>, Map<i64, LanguageIso>);

    closed spec fn view(&self) -> (Map<i64, FormattedOutputStyle>, Map<i64, LanguageIso>) {
        (style_entries(self.style), language_entries(self.language))
    }
}

/// The style of a chat: the one set, or Obsidian.
pub open spec fn chat_style(prefs: Map<i64, FormattedOutputStyle>, chat_id: i64) -> FormattedOutputStyle {
    if prefs.dom().contains(chat_id) {
        prefs[chat_id]
    } else {
        FormattedOutputStyle::Obsidian
    }
}

/// The language code of a chat: the one set, or `auto`.
pub open spec fn chat_language(prefs: Map<i64, LanguageIso>, chat_id: i64) -> Seq<char> {
    if prefs.dom().contains(chat_id) {
        prefs[chat_id]@
    } else {
        "auto"@
    }
}

impl InMemUserState {
    /// No preferences.
    pub fn new() -> (r: Self)
        ensures
            r@.0 == Map::<i64, FormattedOutputStyle>::empty(),
            r@.1 == Map::<i64, LanguageIso>::empty(),
    {
        InMemUserState { style: new_style_map(), language: new_language_map() }
    }

    /// The style of `chat_id`: the one set, or the default (Obsidian).
    pub fn style(&self, chat_id: i64) -> (r: FormattedOutputStyle)
        ensures
            r == chat_style(self@.0, chat_id),
    {
        match get_style(&self.style, chat_id) {
            Some(s) => s,
            None => FormattedOutputStyle::Obsidian,
        }
    }

    pub fn set_style(&mut self, chat_id: i64, style: FormattedOutputStyle)
        ensures
            final(self)@.0 == old(self)@.0.insert(chat_id, style),
            final(self)@.1 == old(self)@.1,
    {
        put_style(&mut self.style, chat_id, style);
    }

    /// The language of `chat_id`: the one set, or `auto`.
    pub fn language(&self, chat_id: i64) -> (r: LanguageIso)
        ensures
            r@ == chat_language(self@.1, chat_id),
    {
        match get_language(&self.language, chat_id) {
            Some(l) => l,
            None => {
                proof {
                    reveal_strlit("auto");
                    lemma_auto_normal();
                }
                LanguageIso::new("auto").unwrap()
            },
        }
    }

    pub fn set_language(&mut self, chat_id: i64, language: LanguageIso)
        ensures
            final(self)@.0 == old(self)@.0,
            final(self)@.1 == old(self)@.1.insert(chat_id, language),
    {
        put_language(&mut self.language, chat_id, language);
    }
}

/// `auto` is its own normal form.
proof fn lemma_auto_normal()
    ensures
        normalize_language("auto"@) == "auto"@,
{
    reveal_strlit("auto");
    let n = "auto"@;
    crate::text::lemma_strip_start_at(n, crate::text::Strip::Whitespace, 0);
    assert(n.subrange(0, n.len() as int) == n);
    crate::text::lemma_strip_end_at(n, crate::text::Strip::Whitespace, n.len() as int);
    assert(crate::text::lower_ascii_seq(n) =~= n);
}

} // verus!
