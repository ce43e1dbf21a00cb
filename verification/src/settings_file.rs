//! The settings she typed, as they are kept between runs, and what the rest of the app makes of
//! them.

use crate::json::{flag_field, flag_of, get, list_field, number_field, number_of, text_field, text_of, json_get, Json};
use crate::std_calls::{lowercase, spec_lowercase, spec_uppercase, uppercase};
use crate::text::{lang_of_code, Lang};
use crate::words::{
    after_char, before_char, find_char, find_text, first_at, is_ascii_letter, is_blank, joined3,
    same_text, starts_with_text, trim_text, trimmed,
};
use vstd::prelude::*;

verus! {

/// The version stamped on what this app writes.
pub const SETTINGS_VERSION: u32 = 2;

/// One indexer she configured.
pub struct StoredIndexer {
    pub name: String,
    pub url: String,
    pub key: String,
    pub enabled: bool,
}

/// An indexer as the proofs see it.
pub struct IndexerModel {
    pub name: Seq<char>,
    pub url: Seq<char>,
    pub key: Seq<char>,
    pub enabled: bool,
}

impl View for StoredIndexer {
    type V = IndexerModel;

    open spec fn view(&self) -> IndexerModel {
        IndexerModel { name: self.name@, url: self.url@, key: self.key@, enabled: self.enabled }
    }
}

impl Default for StoredIndexer {
    fn default() -> (r: StoredIndexer)
        ensures
            r.name@ == Seq::<char>::empty(),
            r.url@ == Seq::<char>::empty(),
            r.key@ == Seq::<char>::empty(),
            !r.enabled,
    {
        StoredIndexer { name: String::new(), url: String::new(), key: String::new(), enabled: false }
    }
}

impl StoredIndexer {
    /// A copy of this indexer.
    pub fn duplicate(&self) -> (r: StoredIndexer)
        ensures
            r@ == self@,
    {
        StoredIndexer {
            name: self.name.clone(),
            url: self.url.clone(),
            key: self.key.clone(),
            enabled: self.enabled,
        }
    }
}

/// Everything she typed into the settings window, as it is kept on disk. A path is kept as the
/// text it displays as.
pub struct StoredSettings {
    pub version: u32,
    pub indexers: Vec<StoredIndexer>,
    pub indexer_url: String,
    pub indexer_key: String,
    pub news_host: String,
    pub news_port: u16,
    pub news_user: String,
    pub news_password: String,
    pub news_encrypted: bool,
    pub news_connections: u8,
    pub tmdb_key: String,
    pub subtitles_key: String,
    pub subtitles_agent: String,
    pub subtitles_user: String,
    pub subtitles_password: String,
    pub destination: Option<String>,
    pub language: String,
    pub subtitles_language: String,
    pub tmdb_language: String,
    /// The language the interface speaks ("es", "en"). Empty means the computer's.
    pub ui_language: String,
    pub autostart: bool,
    pub keep_running: bool,
}

/// The settings as the proofs see them.
#[verifier::ext_equal]
pub struct SettingsModel {
    pub version: u32,
    pub indexers: Seq<IndexerModel>,
    pub indexer_url: Seq<char>,
    pub indexer_key: Seq<char>,
    pub news_host: Seq<char>,
    pub news_port: u16,
    pub news_user: Seq<char>,
    pub news_password: Seq<char>,
    pub news_encrypted: bool,
    pub news_connections: u8,
    pub tmdb_key: Seq<char>,
    pub subtitles_key: Seq<char>,
    pub subtitles_agent: Seq<char>,
    pub subtitles_user: Seq<char>,
    pub subtitles_password: Seq<char>,
    pub destination: Option<Seq<char>>,
    pub language: Seq<char>,
    pub subtitles_language: Seq<char>,
    pub tmdb_language: Seq<char>,
    pub ui_language: Seq<char>,
    pub autostart: bool,
    pub keep_running: bool,
}

/// The view of an optional text.
pub open spec fn opt_view(text: Option<String>) -> Option<Seq<char>> {
    match text {
        Some(t) => Some(t@),
        None => None,
    }
}

/// The indexers, as the proofs see them.
pub open spec fn indexers_view(indexers: Seq<StoredIndexer>) -> Seq<IndexerModel> {
    indexers.map_values(|i: StoredIndexer| i@)
}

impl View for StoredSettings {
    type V = SettingsModel;

    open spec fn view(&self) -> SettingsModel {
        SettingsModel {
            version: self.version,
            indexers: indexers_view(self.indexers@),
            indexer_url: self.indexer_url@,
            indexer_key: self.indexer_key@,
            news_host: self.news_host@,
            news_port: self.news_port,
            news_user: self.news_user@,
            news_password: self.news_password@,
            news_encrypted: self.news_encrypted,
            news_connections: self.news_connections,
            tmdb_key: self.tmdb_key@,
            subtitles_key: self.subtitles_key@,
            subtitles_agent: self.subtitles_agent@,
            subtitles_user: self.subtitles_user@,
            subtitles_password: self.subtitles_password@,
            destination: opt_view(self.destination),
            language: self.language@,
            subtitles_language: self.subtitles_language@,
            tmdb_language: self.tmdb_language@,
            ui_language: self.ui_language@,
            autostart: self.autostart,
            keep_running: self.keep_running,
        }
    }
}

/// What nobody has typed yet: no accounts, any language, encryption on, and the app kept
/// running in the tray when the window closes.
pub open spec fn default_settings() -> SettingsModel {
    SettingsModel {
        version: 0,
        indexers: Seq::empty(),
        indexer_url: Seq::empty(),
        indexer_key: Seq::empty(),
        news_host: Seq::empty(),
        news_port: 0,
        news_user: Seq::empty(),
        news_password: Seq::empty(),
        news_encrypted: true,
        news_connections: 0,
        tmdb_key: Seq::empty(),
        subtitles_key: Seq::empty(),
        subtitles_agent: Seq::empty(),
        subtitles_user: Seq::empty(),
        subtitles_password: Seq::empty(),
        destination: None,
        language: "any"@,
        subtitles_language: Seq::empty(),
        tmdb_language: Seq::empty(),
        ui_language: Seq::empty(),
        autostart: false,
        keep_running: true,
    }
}

impl Default for StoredSettings {
    fn default() -> (r: StoredSettings)
        ensures
            r@ =~= default_settings(),
    {
        StoredSettings {
            version: 0,
            indexers: Vec::new(),
            indexer_url: String::new(),
            indexer_key: String::new(),
            news_host: String::new(),
            news_port: 0,
            news_user: String::new(),
            news_password: String::new(),
            news_encrypted: true,
            news_connections: 0,
            tmdb_key: String::new(),
            subtitles_key: String::new(),
            subtitles_agent: String::new(),
            subtitles_user: String::new(),
            subtitles_password: String::new(),
            destination: None,
            language: String::from_str("any"),
            subtitles_language: String::new(),
            tmdb_language: String::new(),
            ui_language: String::new(),
            autostart: false,
            keep_running: true,
        }
    }
}

// --- names and texts --------------------------------------------------------------

/// The value when it says something, the fallback when it is blank; trimmed either way the
/// value is used.
pub open spec fn non_empty_text(value: Seq<char>, fallback: Seq<char>) -> Seq<char> {
    if trimmed(value).len() == 0 {
        fallback
    } else {
        trimmed(value)
    }
}

/// The value, trimmed, or the fallback when the value is blank.
pub fn non_empty(value: &str, fallback: &str) -> (r: String)
    ensures
        r@ == non_empty_text(value@, fallback@),
{
    let plain = trim_text(value);
    if plain.as_str().unicode_len() == 0 {
        String::from_str(fallback)
    } else {
        plain
    }
}

/// What `text.split(sep).nth(1)` yields: what lies between the first `sep` and the next one.
pub open spec fn second_piece(text: Seq<char>, sep: Seq<char>) -> Option<Seq<char>> {
    match first_at(text, sep) {
        None => None,
        Some(at) => {
            let rest = text.skip(at + sep.len());
            match first_at(rest, sep) {
                Some(next) => Some(rest.take(next)),
                None => Some(rest),
            }
        },
    }
}

/// The host a URL names: after the scheme, before the first slash.
pub open spec fn host_part(url: Seq<char>) -> Option<Seq<char>> {
    match second_piece(url, "://"@) {
        Some(rest) => Some(before_char(rest, '/')),
        None => None,
    }
}

/// `text` without every "api." it starts with.
pub open spec fn without_api(text: Seq<char>) -> Seq<char>
    decreases text.len(),
{
    if text.len() >= 4 && text.take(4) == "api."@ {
        without_api(text.skip(4))
    } else {
        text
    }
}

/// The name an indexer is shown under: the host of its URL without "api.", or "Buscador".
pub open spec fn name_from_text(url: Seq<char>) -> Seq<char> {
    match host_part(url) {
        Some(host) => without_api(host),
        None => "Buscador"@,
    }
}

fn second_piece_of(text: &str, sep: &str) -> (r: Option<String>)
    ensures
        opt_view(r) == second_piece(text@, sep@),
{
    match find_text(text, sep) {
        None => None,
        Some(at) => {
            let n = text.unicode_len();
            let m = sep.unicode_len();
            let rest = text.substring_char(at + m, n);
            assert(rest@ =~= text@.skip(at + m));
            match find_text(rest, sep) {
                Some(next) => {
                    let piece = rest.substring_char(0, next);
                    assert(piece@ =~= rest@.take(next as int));
                    Some(String::from_str(piece))
                },
                None => Some(String::from_str(rest)),
            }
        },
    }
}

/// The host a URL names, when it names one.
pub fn host_part_of(url: &str) -> (r: Option<String>)
    ensures
        opt_view(r) == host_part(url@),
{
    match second_piece_of(url, "://") {
        Some(rest) => {
            let end = find_char(rest.as_str(), '/');
            Some(String::from_str(rest.as_str().substring_char(0, end)))
        },
        None => None,
    }
}

fn without_api_of(text: &str) -> (r: String)
    ensures
        r@ == without_api(text@),
    decreases text@.len(),
{
    proof {
        reveal_strlit("api.");
    }
    if starts_with_text(text, "api.") {
        let n = text.unicode_len();
        let rest = text.substring_char(4, n);
        assert(rest@ =~= text@.skip(4));
        without_api_of(rest)
    } else {
        String::from_str(text)
    }
}

/// The name an indexer is shown under when she gave it none.
pub fn name_from(url: &str) -> (r: String)
    ensures
        r@ == name_from_text(url@),
{
    match host_part_of(url) {
        Some(host) => without_api_of(host.as_str()),
        None => String::from_str("Buscador"),
    }
}

// --- from older files ---------------------------------------------------------------

/// A file from before there could be several indexers, moved to the list.
pub open spec fn migrated(m: SettingsModel) -> SettingsModel {
    if m.indexers.len() > 0 || trimmed(m.indexer_key).len() == 0 {
        m
    } else {
        let url = non_empty_text(m.indexer_url, "https://api.nzbgeek.info"@);
        SettingsModel {
            indexers: m.indexers.push(
                IndexerModel { name: name_from_text(url), url, key: m.indexer_key, enabled: true },
            ),
            indexer_url: Seq::empty(),
            indexer_key: Seq::empty(),
            ..m
        }
    }
}

/// A file written when there was one indexer gets that indexer in the list.
pub fn migrate(stored: &mut StoredSettings)
    ensures
        final(stored)@ =~= migrated(old(stored)@),
{
    if stored.indexers.len() > 0 || is_blank(stored.indexer_key.as_str()) {
        return;
    }
    let url = non_empty(stored.indexer_url.as_str(), "https://api.nzbgeek.info");
    let indexer = StoredIndexer {
        name: name_from(url.as_str()),
        key: stored.indexer_key.clone(),
        enabled: true,
        url,
    };
    let ghost before = stored.indexers@;
    stored.indexers.push(indexer);
    assert(indexers_view(stored.indexers@) =~= indexers_view(before).push(indexer@));
    stored.indexer_url = String::new();
    stored.indexer_key = String::new();
}

// --- what the window sends -----------------------------------------------------------

/// A text field of an indexer row, blank when it is not text.
pub open spec fn row_text(row: Json, key: Seq<char>) -> Seq<char> {
    match text_field(row, key) {
        Some(text) => text,
        None => Seq::empty(),
    }
}

/// The indexer a row of the window describes, when it has an address.
pub open spec fn row_indexer(row: Json) -> Option<IndexerModel> {
    let url = row_text(row, "url"@);
    if url.len() == 0 {
        None
    } else {
        Some(
            IndexerModel {
                name: row_text(row, "name"@),
                key: row_text(row, "key"@),
                enabled: match flag_field(row, "enabled"@) {
                    Some(b) => b,
                    None => true,
                },
                url,
            },
        )
    }
}

/// The indexers the window's rows describe, in order, rows without an address left out.
pub open spec fn indexers_from(rows: Seq<Json>) -> Seq<IndexerModel>
    decreases rows.len(),
{
    if rows.len() == 0 {
        Seq::empty()
    } else {
        match row_indexer(rows.last()) {
            Some(indexer) => indexers_from(rows.drop_last()).push(indexer),
            None => indexers_from(rows.drop_last()),
        }
    }
}

/// A text the window sent, or what was there.
pub open spec fn sent_or(sent: Option<Seq<char>>, kept: Seq<char>) -> Seq<char> {
    match sent {
        Some(v) => v,
        None => kept,
    }
}

/// A text the window sent when it is not blank, or what was there: a blank password field
/// means leave it alone.
pub open spec fn filled_or(sent: Option<Seq<char>>, kept: Seq<char>) -> Seq<char> {
    match sent {
        Some(v) => if v.len() > 0 { v } else { kept },
        None => kept,
    }
}

/// A yes-or-no the window sent, or what was there.
pub open spec fn flag_or(sent: Option<bool>, kept: bool) -> bool {
    match sent {
        Some(b) => b,
        None => kept,
    }
}

/// How many connections a number asks for, between one and fifty.
pub open spec fn clamped_connections(asked: u64) -> u8 {
    if asked < 1 {
        1
    } else if asked > 50 {
        50
    } else {
        asked as u8
    }
}

/// The indexers the window sent, when it sent the list.
pub open spec fn applied_indexers(m: SettingsModel, incoming: Json) -> SettingsModel {
    SettingsModel {
        indexers: match list_field(incoming, "indexers"@) {
            Some(rows) => indexers_from(rows),
            None => m.indexers,
        },
        ..m
    }
}

/// The texts of the news server and the services, as the window sent them.
pub open spec fn applied_accounts(m: SettingsModel, incoming: Json) -> SettingsModel {
    SettingsModel {
        news_host: sent_or(text_field(incoming, "news_host"@), m.news_host),
        news_user: sent_or(text_field(incoming, "news_user"@), m.news_user),
        news_password: filled_or(text_field(incoming, "news_password"@), m.news_password),
        tmdb_key: sent_or(text_field(incoming, "tmdb_key"@), m.tmdb_key),
        subtitles_key: sent_or(text_field(incoming, "subtitles_key"@), m.subtitles_key),
        subtitles_agent: sent_or(text_field(incoming, "subtitles_agent"@), m.subtitles_agent),
        subtitles_user: sent_or(text_field(incoming, "subtitles_user"@), m.subtitles_user),
        subtitles_password: filled_or(
            text_field(incoming, "subtitles_password"@),
            m.subtitles_password,
        ),
        ..m
    }
}

/// Where films go and the languages, as the window sent them.
pub open spec fn applied_places(m: SettingsModel, incoming: Json) -> SettingsModel {
    SettingsModel {
        destination: match text_field(incoming, "destination"@) {
            Some(v) => if v.len() > 0 { Some(v) } else { m.destination },
            None => m.destination,
        },
        language: sent_or(text_field(incoming, "language"@), m.language),
        subtitles_language: filled_or(
            text_field(incoming, "subtitles_language"@),
            m.subtitles_language,
        ),
        tmdb_language: filled_or(text_field(incoming, "tmdb_language"@), m.tmdb_language),
        ui_language: sent_or(text_field(incoming, "ui_language"@), m.ui_language),
        ..m
    }
}

/// The numbers and the switches, as the window sent them.
pub open spec fn applied_switches(m: SettingsModel, incoming: Json) -> SettingsModel {
    SettingsModel {
        news_port: match number_field(incoming, "news_port"@) {
            Some(port) => port as u16,
            None => m.news_port,
        },
        news_connections: match number_field(incoming, "news_connections"@) {
            Some(asked) => clamped_connections(asked),
            None => m.news_connections,
        },
        news_encrypted: flag_or(flag_field(incoming, "news_encrypted"@), m.news_encrypted),
        autostart: flag_or(flag_field(incoming, "autostart"@), m.autostart),
        keep_running: flag_or(flag_field(incoming, "keep_running"@), m.keep_running),
        ..m
    }
}

/// The settings once what the window sent is applied: what it mentions changes, what it does
/// not mention stays.
pub open spec fn applied(m: SettingsModel, incoming: Json) -> SettingsModel {
    applied_switches(
        applied_places(applied_accounts(applied_indexers(m, incoming), incoming), incoming),
        incoming,
    )
}

fn row_text_of(row: &Json, key: &str) -> (r: String)
    ensures
        r@ == row_text(*row, key@),
{
    match text_of(row, key) {
        Some(text) => text,
        None => String::new(),
    }
}

fn row_indexer_of(row: &Json) -> (r: Option<StoredIndexer>)
    ensures
        match r {
            Some(indexer) => row_indexer(*row) == Some(indexer@),
            None => row_indexer(*row) is None,
        },
{
    let url = row_text_of(row, "url");
    if url.as_str().unicode_len() == 0 {
        return None;
    }
    let enabled = match flag_of(row, "enabled") {
        Some(b) => b,
        None => true,
    };
    Some(StoredIndexer { name: row_text_of(row, "name"), key: row_text_of(row, "key"), enabled, url })
}

fn indexers_of(rows: &Vec<Json>) -> (r: Vec<StoredIndexer>)
    ensures
        indexers_view(r@) == indexers_from(rows@),
{
    let n = rows.len();
    let mut found: Vec<StoredIndexer> = Vec::new();
    let mut i: usize = 0;
    while i < n
        invariant
            n == rows@.len(),
            i <= n,
            indexers_view(found@) == indexers_from(rows@.take(i as int)),
        decreases n - i,
    {
        assert(rows@.take(i + 1).drop_last() =~= rows@.take(i as int));
        assert(rows@.take(i + 1).last() == rows@[i as int]);
        let ghost before = found@;
        match row_indexer_of(&rows[i]) {
            Some(indexer) => {
                found.push(indexer);
                assert(indexers_view(found@) =~= indexers_view(before).push(indexer@));
            },
            None => {},
        }
        i = i + 1;
    }
    assert(rows@.take(n as int) =~= rows@);
    found
}

fn apply_accounts(stored: &mut StoredSettings, incoming: &Json)
    ensures
        final(stored)@ =~= applied_accounts(old(stored)@, *incoming),
{
    if let Some(value) = text_of(incoming, "news_host") {
        stored.news_host = value;
    }
    if let Some(value) = text_of(incoming, "news_user") {
        stored.news_user = value;
    }
    if let Some(value) = text_of(incoming, "news_password") {
        if value.as_str().unicode_len() > 0 {
            stored.news_password = value;
        }
    }
    if let Some(value) = text_of(incoming, "tmdb_key") {
        stored.tmdb_key = value;
    }
    if let Some(value) = text_of(incoming, "subtitles_key") {
        stored.subtitles_key = value;
    }
    if let Some(value) = text_of(incoming, "subtitles_agent") {
        stored.subtitles_agent = value;
    }
    if let Some(value) = text_of(incoming, "subtitles_user") {
        stored.subtitles_user = value;
    }
    if let Some(value) = text_of(incoming, "subtitles_password") {
        if value.as_str().unicode_len() > 0 {
            stored.subtitles_password = value;
        }
    }
}

fn apply_places(stored: &mut StoredSettings, incoming: &Json)
    ensures
        final(stored)@ =~= applied_places(old(stored)@, *incoming),
{
    if let Some(value) = text_of(incoming, "destination") {
        if value.as_str().unicode_len() > 0 {
            stored.destination = Some(value);
        }
    }
    if let Some(value) = text_of(incoming, "language") {
        stored.language = value;
    }
    if let Some(value) = text_of(incoming, "subtitles_language") {
        if value.as_str().unicode_len() > 0 {
            stored.subtitles_language = value;
        }
    }
    if let Some(value) = text_of(incoming, "tmdb_language") {
        if value.as_str().unicode_len() > 0 {
            stored.tmdb_language = value;
        }
    }
    if let Some(value) = text_of(incoming, "ui_language") {
        stored.ui_language = value;
    }
}

fn apply_switches(stored: &mut StoredSettings, incoming: &Json)
    ensures
        final(stored)@ =~= applied_switches(old(stored)@, *incoming),
{
    if let Some(port) = number_of(incoming, "news_port") {
        stored.news_port = port as u16;
    }
    if let Some(asked) = number_of(incoming, "news_connections") {
        stored.news_connections = if asked < 1 {
            1
        } else if asked > 50 {
            50
        } else {
            asked as u8
        };
    }
    if let Some(encrypted) = flag_of(incoming, "news_encrypted") {
        stored.news_encrypted = encrypted;
    }
    if let Some(wanted) = flag_of(incoming, "autostart") {
        stored.autostart = wanted;
    }
    if let Some(wanted) = flag_of(incoming, "keep_running") {
        stored.keep_running = wanted;
    }
}

/// What the settings window sent, applied: every field it mentions is taken, trimmed, and
/// every field it does not mention is left as it was. A blank password means "leave it".
pub fn apply(stored: &mut StoredSettings, incoming: &Json)
    ensures
        final(stored)@ =~= applied(old(stored)@, *incoming),
{
    match get(incoming, "indexers") {
        Some(Json::List(rows)) => {
            stored.indexers = indexers_of(rows);
        },
        _ => {},
    }
    apply_accounts(stored, incoming);
    apply_places(stored, incoming);
    apply_switches(stored, incoming);
}

// --- the file on disk ------------------------------------------------------------------

/// Whether a settings file, read as JSON, was written by a newer app than this one: its
/// `version` is a whole number above this app's. Such a file must not be overwritten.
pub open spec fn newer_file(file: Json) -> bool {
    json_get(file, "version"@) matches Some(Json::Whole(version)) && version > SETTINGS_VERSION
}

/// Whether a settings file, read as JSON, was written by a newer app than this one.
pub fn newer_than_app(file: &Json) -> (r: bool)
    ensures
        r == newer_file(*file),
{
    proof {
        reveal_strlit("version");
    }
    match get(file, "version") {
        Some(Json::Whole(version)) => *version > SETTINGS_VERSION as u64,
        _ => false,
    }
}

/// What is written carries the version of this app, so a later app knows what it reads.
pub fn stamp(stored: &mut StoredSettings)
    ensures
        final(stored)@ == (SettingsModel { version: SETTINGS_VERSION, ..old(stored)@ }),
{
    stored.version = SETTINGS_VERSION;
}

// --- languages --------------------------------------------------------------------------

/// Which language the interface speaks: the setting, else the computer's, else English.
pub open spec fn ui_language_from(setting: Seq<char>, system_code: Seq<char>) -> Lang {
    match lang_of_code(setting) {
        Some(lang) => lang,
        None => match lang_of_code(system_code) {
            Some(lang) => lang,
            None => Lang::En,
        },
    }
}

/// Which language the interface speaks: the setting, else the computer's, else English.
pub fn resolve_ui_language(setting: &str, system_code: &str) -> (r: Lang)
    ensures
        r == ui_language_from(setting@, system_code@),
{
    match Lang::from_code(setting) {
        Some(lang) => lang,
        None => match Lang::from_code(system_code) {
            Some(lang) => lang,
            None => Lang::En,
        },
    }
}

/// The film database key she gave, without the space around it; none when she gave none, and
/// then titles are looked up without a key, and the film database is not asked.
pub open spec fn film_database_key_text(stored: SettingsModel) -> Option<Seq<char>> {
    if trimmed(stored.tmdb_key).len() > 0 {
        Some(trimmed(stored.tmdb_key))
    } else {
        None
    }
}

/// The film database key she gave, trimmed: with one, titles are looked up in the film database
/// in her language; without one, the keyless lookup is used and the film database is not asked.
pub fn film_database_key(stored: &StoredSettings) -> (r: Option<String>)
    ensures
        match r {
            Some(key) => film_database_key_text(stored@) == Some(key@),
            None => film_database_key_text(stored@) is None,
        },
{
    let key = trim_text(stored.tmdb_key.as_str());
    if key.as_str().unicode_len() == 0 {
        None
    } else {
        Some(key)
    }
}

/// The language the film database answers in: the setting, else the computer's.
pub fn tmdb_language_of(stored: &StoredSettings, fallback: &str) -> (r: String)
    ensures
        r@ == non_empty_text(stored.tmdb_language@, fallback@),
{
    non_empty(stored.tmdb_language.as_str(), fallback)
}

/// A locale with its encoding dropped and its underscores written as hyphens.
pub open spec fn locale_base(locale: Seq<char>) -> Seq<char> {
    crate::words::replaced_char(trimmed(before_char(locale, '.')), '_', '-')
}

/// The region a locale names after its language, as `split('-')` finds it.
pub open spec fn locale_region(locale: Seq<char>) -> Option<Seq<char>> {
    match after_char(locale_base(locale), '-') {
        Some(rest) => Some(before_char(rest, '-')),
        None => None,
    }
}

/// The language code and the full locale a computer's locale names: "es_ES.UTF-8" is "es" and
/// "es-ES"; a name that is not two letters is no language.
pub open spec fn language_from_locale_text(locale: Seq<char>) -> Option<(Seq<char>, Seq<char>)> {
    let code = spec_lowercase(before_char(locale_base(locale), '-'));
    if code.len() != 2 || !is_ascii_letter(code[0]) || !is_ascii_letter(code[1]) {
        None
    } else {
        match locale_region(locale) {
            Some(region) => if vstd::utf8::encode_utf8(spec_uppercase(region)).len() as usize == 2 {
                Some((code, code + "-"@ + spec_uppercase(region)))
            } else {
                Some((code, code))
            },
            None => Some((code, code)),
        }
    }
}

/// The language code and the full locale a computer's locale names.
pub fn language_from_locale(locale: &str) -> (r: Option<(String, String)>)
    ensures
        match r {
            Some((code, full)) => language_from_locale_text(locale@) == Some((code@, full@)),
            None => language_from_locale_text(locale@) is None,
        },
{
    let dot = find_char(locale, '.');
    let before = locale.substring_char(0, dot);
    assert(before@ =~= before_char(locale@, '.'));
    let trimmed_base = trim_text(before);
    let base = crate::words::replace_char(trimmed_base.as_str(), '_', '-');
    let base_len = base.as_str().unicode_len();
    let hyphen = find_char(base.as_str(), '-');
    let first = base.as_str().substring_char(0, hyphen);
    assert(base@ == locale_base(locale@));
    assert(first@ =~= before_char(base@, '-'));
    let code = lowercase(first);
    if code.as_str().unicode_len() != 2 {
        return None;
    }
    let a = code.as_str().get_char(0);
    let b = code.as_str().get_char(1);
    if !((('a' <= a && a <= 'z') || ('A' <= a && a <= 'Z')) && (('a' <= b && b <= 'z') || ('A'
        <= b && b <= 'Z'))) {
        return None;
    }
    if hyphen < base_len {
        let rest = base.as_str().substring_char(hyphen + 1, base_len);
        assert(rest@ =~= base@.skip(hyphen + 1));
        let end = find_char(rest, '-');
        let piece = rest.substring_char(0, end);
        assert(piece@ =~= before_char(rest@, '-'));
        assert(locale_region(locale@) == Some(piece@));
        let region = uppercase(piece);
        if region.as_str().len() == 2 {
            let full = joined3(code.as_str(), "-", region.as_str());
            return Some((code, full));
        }
    }
    let full = code.clone();
    Some((code, full))
}

/// The first of the computer's locale settings that says anything, in the order they are
/// looked at.
pub open spec fn first_said(locales: Seq<&str>) -> Option<Seq<char>>
    decreases locales.len(),
{
    if locales.len() == 0 {
        None
    } else if locales[0]@.len() > 0 {
        Some(locales[0]@)
    } else {
        first_said(locales.drop_first())
    }
}

/// The computer's language and locale: read from the first locale setting that says anything,
/// or Spanish from Spain when none names a language.
pub open spec fn system_language_text(locales: Seq<&str>) -> (Seq<char>, Seq<char>) {
    match first_said(locales) {
        Some(locale) => match language_from_locale_text(locale) {
            Some(found) => found,
            None => ("es"@, "es-ES"@),
        },
        None => ("es"@, "es-ES"@),
    }
}

/// The computer's language and locale, given its locale settings in the order they are looked
/// at (on Unix `LC_ALL`, `LC_MESSAGES`, `LANG`; an unset one is empty).
pub fn system_language(locales: &[&str]) -> (r: (String, String))
    ensures
        (r.0@, r.1@) == system_language_text(locales@),
{
    let n = locales.len();
    let mut i: usize = 0;
    assert(locales@.skip(0) =~= locales@);
    while i < n && locales[i].unicode_len() == 0
        invariant
            n == locales@.len(),
            i <= n,
            first_said(locales@) == first_said(locales@.skip(i as int)),
        decreases n - i,
    {
        assert(locales@.skip(i as int).drop_first() =~= locales@.skip(i + 1));
        i = i + 1;
    }
    if i < n {
        assert(locales@.skip(i as int)[0] == locales@[i as int]);
        match language_from_locale(locales[i]) {
            Some(found) => return found,
            None => {},
        }
    }
    (String::from_str("es"), String::from_str("es-ES"))
}

/// Which language the interface speaks, given the stored settings and the computer's language.
pub fn ui_language_of(stored: &StoredSettings, system_code: &str) -> (r: Lang)
    ensures
        r == ui_language_from(stored.ui_language@, system_code@),
{
    resolve_ui_language(stored.ui_language.as_str(), system_code)
}

/// How Windows writes a path a program can be handed: a drive letter without the long-path
/// prefix, which only a share named through that prefix needs.
pub open spec fn as_windows_writes_it_text(path: Seq<char>) -> Seq<char> {
    let prefix = "\\\\?\\"@;
    if path.len() >= 4 && path.take(4) == prefix {
        let rest = path.skip(4);
        if rest.len() >= 3 && is_ascii_letter(rest[0]) && rest[1] == ':' && rest[2] == '\\' {
            rest
        } else {
            path
        }
    } else {
        path
    }
}

/// A path written the way Windows writes it is already written that way.
pub proof fn law_a_path_is_rewritten_once(path: Seq<char>)
    ensures
        as_windows_writes_it_text(as_windows_writes_it_text(path)) == as_windows_writes_it_text(path),
{
    reveal_strlit("\\\\?\\");
    let once = as_windows_writes_it_text(path);
    if once != path && once.len() >= 4 {
        assert(once.take(4)[0] == once[0]);
        assert(once.take(4)[0] != "\\\\?\\"@[0]);
    }
}

/// A path as the rest of Windows writes it: without the long-path prefix when it names a drive.
pub fn as_windows_writes_it(path: &str) -> (r: String)
    ensures
        r@ == as_windows_writes_it_text(path@),
{
    proof {
        reveal_strlit("\\\\?\\");
    }
    if !starts_with_text(path, "\\\\?\\") {
        return String::from_str(path);
    }
    let n = path.unicode_len();
    let rest = path.substring_char(4, n);
    assert(rest@ =~= path@.skip(4));
    if n - 4 >= 3 {
        let a = rest.get_char(0);
        if (('a' <= a && a <= 'z') || ('A' <= a && a <= 'Z')) && rest.get_char(1) == ':'
            && rest.get_char(2) == '\\' {
            return String::from_str(rest);
        }
    }
    String::from_str(path)
}

// --- what the rest of the app is handed ---------------------------------------------------

/// The news server downloads come from.
pub struct NewsServer {
    pub host: String,
    pub port: u16,
    pub username: String,
    pub password: String,
    pub encrypted: bool,
    pub connections: u8,
    pub retention_days: u32,
}

/// The news server as she configured it, with sensible defaults for what she left empty: port
/// 563 and eight connections.
pub fn news_of(stored: &StoredSettings) -> (r: NewsServer)
    ensures
        r.host@ == stored.news_host@,
        r.port == (if stored.news_port == 0 { 563 } else { stored.news_port }),
        r.username@ == stored.news_user@,
        r.password@ == stored.news_password@,
        r.encrypted == stored.news_encrypted,
        r.connections == (if stored.news_connections == 0 { 8 } else { stored.news_connections }),
        r.retention_days == 0,
{
    NewsServer {
        host: stored.news_host.clone(),
        port: if stored.news_port == 0 { 563 } else { stored.news_port },
        username: stored.news_user.clone(),
        password: stored.news_password.clone(),
        encrypted: stored.news_encrypted,
        connections: if stored.news_connections == 0 { 8 } else { stored.news_connections },
        retention_days: 0,
    }
}

/// One indexer as searches use it.
pub struct IndexerSettings {
    pub name: String,
    pub base_url: String,
    pub api_key: String,
    pub enabled: bool,
}

/// The subtitle service as the app uses it.
pub struct SubtitleSettings {
    pub api_key: String,
    pub user_agent: String,
    pub username: String,
    pub password: String,
    pub language: String,
    pub api_base: Option<String>,
}

/// Everything the app runs with, assembled from what she typed.
pub struct Settings {
    pub indexers: Vec<IndexerSettings>,
    pub news: NewsServer,
    pub subtitles: SubtitleSettings,
    pub state: String,
    pub destination: String,
}

/// An indexer as searches use it: named after its host when she gave it no name, with the
/// address and the key trimmed.
pub open spec fn indexer_settings_matches(made: IndexerSettings, stored: IndexerModel) -> bool {
    &&& made.name@ == non_empty_text(stored.name, name_from_text(stored.url))
    &&& made.base_url@ == trimmed(stored.url)
    &&& made.api_key@ == trimmed(stored.key)
    &&& made.enabled == stored.enabled
}

fn indexer_settings_of(stored: &StoredIndexer) -> (r: IndexerSettings)
    ensures
        indexer_settings_matches(r, stored@),
{
    let fallback = name_from(stored.url.as_str());
    IndexerSettings {
        name: non_empty(stored.name.as_str(), fallback.as_str()),
        base_url: trim_text(stored.url.as_str()),
        api_key: trim_text(stored.key.as_str()),
        enabled: stored.enabled,
    }
}

/// What the app runs with: her indexers, her news server, her subtitle account in her
/// subtitle language or the computer's, and her folder for films or the fallback.
pub fn assemble(
    stored: &StoredSettings,
    fallback_films: String,
    state: String,
    fallback_language: &str,
) -> (r: Settings)
    ensures
        r.indexers@.len() == stored.indexers@.len(),
        forall|i: int|
            0 <= i < r.indexers@.len() ==> indexer_settings_matches(
                #[trigger] r.indexers@[i],
                stored.indexers@[i]@,
            ),
        r.news.host@ == stored.news_host@,
        r.news.port == (if stored.news_port == 0 { 563 } else { stored.news_port }),
        r.news.username@ == stored.news_user@,
        r.news.password@ == stored.news_password@,
        r.news.encrypted == stored.news_encrypted,
        r.news.connections == (if stored.news_connections == 0 { 8 } else { stored.news_connections }),
        r.news.retention_days == 0,
        r.subtitles.api_key@ == stored.subtitles_key@,
        r.subtitles.user_agent@ == non_empty_text(stored.subtitles_agent@, "mamacine v1.0"@),
        r.subtitles.username@ == stored.subtitles_user@,
        r.subtitles.password@ == stored.subtitles_password@,
        r.subtitles.language@ == non_empty_text(stored.subtitles_language@, fallback_language@),
        r.subtitles.api_base is None,
        r.state@ == state@,
        r.destination@ == (match stored.destination {
            Some(folder) => folder@,
            None => fallback_films@,
        }),
{
    let n = stored.indexers.len();
    let mut indexers: Vec<IndexerSettings> = Vec::new();
    let mut i: usize = 0;
    while i < n
        invariant
            n == stored.indexers@.len(),
            i <= n,
            indexers@.len() == i,
            forall|j: int|
                0 <= j < i ==> indexer_settings_matches(#[trigger] indexers@[j], stored.indexers@[j]@),
        decreases n - i,
    {
        indexers.push(indexer_settings_of(&stored.indexers[i]));
        i = i + 1;
    }
    let destination = match &stored.destination {
        Some(folder) => folder.clone(),
        None => fallback_films,
    };
    Settings {
        indexers,
        news: news_of(stored),
        subtitles: SubtitleSettings {
            api_key: stored.subtitles_key.clone(),
            user_agent: non_empty(stored.subtitles_agent.as_str(), "mamacine v1.0"),
            username: stored.subtitles_user.clone(),
            password: stored.subtitles_password.clone(),
            language: non_empty(stored.subtitles_language.as_str(), fallback_language),
            api_base: None,
        },
        state,
        destination,
    }
}

/// The settings screen as the window shows it.
pub struct SettingsView {
    pub indexers: Vec<StoredIndexer>,
    pub news_host: String,
    pub news_port: u16,
    pub news_user: String,
    pub news_password_set: bool,
    pub news_connections: u8,
    pub news_encrypted: bool,
    pub tmdb_key: String,
    pub subtitles_key: String,
    pub subtitles_agent: String,
    pub subtitles_user: String,
    pub subtitles_password_set: bool,
    pub destination: String,
    pub language: String,
    pub ui_language: String,
    pub app_language: &'static str,
    pub autostart: bool,
    pub keep_running: bool,
    pub ready: bool,
    pub settings_path: String,
    pub log_path: String,
}

/// Whether an indexer can be searched: switched on, with a key and an address.
pub open spec fn usable_indexer(indexer: IndexerModel) -> bool {
    indexer.enabled && trimmed(indexer.key).len() > 0 && trimmed(indexer.url).len() > 0
}

/// Whether what she typed is enough to look for films: an indexer that can be searched and a
/// news server to download from.
pub open spec fn settings_ready(m: SettingsModel) -> bool {
    (exists|i: int| 0 <= i < m.indexers.len() && usable_indexer(m.indexers[i])) && trimmed(
        m.news_host,
    ).len() > 0
}

fn copy_indexers(indexers: &Vec<StoredIndexer>) -> (r: Vec<StoredIndexer>)
    ensures
        indexers_view(r@) == indexers_view(indexers@),
{
    let n = indexers.len();
    let mut copied: Vec<StoredIndexer> = Vec::new();
    let mut i: usize = 0;
    while i < n
        invariant
            n == indexers@.len(),
            i <= n,
            indexers_view(copied@) == indexers_view(indexers@.take(i as int)),
        decreases n - i,
    {
        let ghost before = copied@;
        copied.push(indexers[i].duplicate());
        assert(indexers_view(copied@) =~= indexers_view(before).push(indexers@[i as int]@));
        assert(indexers_view(indexers@.take(i + 1)) =~= indexers_view(indexers@.take(i as int)).push(indexers@[i as int]@));
        i = i + 1;
    }
    assert(indexers@.take(n as int) =~= indexers@);
    copied
}

fn any_usable(indexers: &Vec<StoredIndexer>) -> (r: bool)
    ensures
        r == (exists|i: int| 0 <= i < indexers@.len() && usable_indexer(#[trigger] indexers@[i]@)),
{
    let n = indexers.len();
    let mut i: usize = 0;
    while i < n
        invariant
            n == indexers@.len(),
            i <= n,
            forall|j: int| 0 <= j < i ==> !usable_indexer(#[trigger] indexers@[j]@),
        decreases n - i,
    {
        let indexer = &indexers[i];
        if indexer.enabled && !is_blank(indexer.key.as_str()) && !is_blank(indexer.url.as_str()) {
            assert(usable_indexer(indexers@[i as int]@));
            return true;
        }
        i = i + 1;
    }
    false
}

/// The settings screen: what she typed, with the passwords only said to be there, the
/// defaults the app will use, and whether it is enough to start.
pub fn view_of(stored: &StoredSettings, settings_path: String, log_path: String, lang: Lang) -> (r: SettingsView)
    ensures
        indexers_view(r.indexers@) == stored@.indexers,
        r.news_host@ == stored.news_host@,
        r.news_port == (if stored.news_port == 0 { 563 } else { stored.news_port }),
        r.news_user@ == stored.news_user@,
        r.news_password_set == (stored.news_password@.len() > 0),
        r.news_connections == (if stored.news_connections == 0 { 8 } else { stored.news_connections }),
        r.news_encrypted == stored.news_encrypted,
        r.tmdb_key@ == stored.tmdb_key@,
        r.subtitles_key@ == stored.subtitles_key@,
        r.subtitles_agent@ == stored.subtitles_agent@,
        r.subtitles_user@ == stored.subtitles_user@,
        r.subtitles_password_set == (stored.subtitles_password@.len() > 0),
        r.destination@ == (match stored.destination {
            Some(folder) => folder@,
            None => Seq::empty(),
        }),
        r.language@ == stored.language@,
        r.ui_language@ == stored.ui_language@,
        r.app_language@ == lang.code_text(),
        r.autostart == stored.autostart,
        r.keep_running == stored.keep_running,
        r.ready == settings_ready(stored@),
        r.settings_path@ == settings_path@,
        r.log_path@ == log_path@,
{
    let usable = any_usable(&stored.indexers);
    assert(usable == (exists|i: int| 0 <= i < stored@.indexers.len() && usable_indexer(stored@.indexers[i]))) by {
        if usable {
            let i = choose|i: int| 0 <= i < stored.indexers@.len() && usable_indexer(#[trigger] stored.indexers@[i]@);
            assert(stored@.indexers[i] == stored.indexers@[i]@);
        }
        if exists|i: int| 0 <= i < stored@.indexers.len() && usable_indexer(stored@.indexers[i]) {
            let i = choose|i: int| 0 <= i < stored@.indexers.len() && usable_indexer(stored@.indexers[i]);
            assert(stored@.indexers[i] == stored.indexers@[i]@);
        }
    }
    let ready = usable && !is_blank(stored.news_host.as_str());
    let news = news_of(stored);
    SettingsView {
        indexers: copy_indexers(&stored.indexers),
        news_host: stored.news_host.clone(),
        news_port: news.port,
        news_user: stored.news_user.clone(),
        news_password_set: stored.news_password.as_str().unicode_len() > 0,
        news_connections: news.connections,
        news_encrypted: stored.news_encrypted,
        tmdb_key: stored.tmdb_key.clone(),
        subtitles_key: stored.subtitles_key.clone(),
        subtitles_agent: stored.subtitles_agent.clone(),
        subtitles_user: stored.subtitles_user.clone(),
        subtitles_password_set: stored.subtitles_password.as_str().unicode_len() > 0,
        destination: match &stored.destination {
            Some(folder) => folder.clone(),
            None => String::new(),
        },
        language: stored.language.clone(),
        ui_language: stored.ui_language.clone(),
        app_language: lang.code(),
        autostart: stored.autostart,
        keep_running: stored.keep_running,
        ready,
        settings_path,
        log_path,
    }
}

// --- laws -----------------------------------------------------------------------------------

/// Sending the same thing twice changes nothing more than sending it once.
pub proof fn law_apply_is_idempotent(m: SettingsModel, incoming: Json)
    ensures
        applied(applied(m, incoming), incoming) =~= applied(m, incoming),
{
}

/// What the window did not mention is not touched: a message that mentions nothing leaves every
/// setting as it was.
pub proof fn law_apply_of_nothing_changes_nothing(m: SettingsModel, incoming: Json)
    requires
        forall|key: Seq<char>| #[trigger] json_get(incoming, key) is None,
    ensures
        applied(m, incoming) =~= m,
{
    assert(json_get(incoming, "indexers"@) is None);
    assert(json_get(incoming, "news_host"@) is None);
    assert(json_get(incoming, "news_user"@) is None);
    assert(json_get(incoming, "news_password"@) is None);
    assert(json_get(incoming, "tmdb_key"@) is None);
    assert(json_get(incoming, "subtitles_key"@) is None);
    assert(json_get(incoming, "subtitles_agent"@) is None);
    assert(json_get(incoming, "subtitles_user"@) is None);
    assert(json_get(incoming, "subtitles_password"@) is None);
    assert(json_get(incoming, "destination"@) is None);
    assert(json_get(incoming, "language"@) is None);
    assert(json_get(incoming, "subtitles_language"@) is None);
    assert(json_get(incoming, "tmdb_language"@) is None);
    assert(json_get(incoming, "ui_language"@) is None);
    assert(json_get(incoming, "news_port"@) is None);
    assert(json_get(incoming, "news_connections"@) is None);
    assert(json_get(incoming, "news_encrypted"@) is None);
    assert(json_get(incoming, "autostart"@) is None);
    assert(json_get(incoming, "keep_running"@) is None);
}

/// Migrating a file that was already migrated changes nothing, and a migration keeps the key
/// she had typed, in the indexer it creates.
pub proof fn law_migration_is_idempotent_and_keeps_the_key(m: SettingsModel)
    ensures
        migrated(migrated(m)) =~= migrated(m),
        m.indexers.len() == 0 && trimmed(m.indexer_key).len() > 0 ==> migrated(m).indexers.len()
            == 1 && migrated(m).indexers[0].key == m.indexer_key && migrated(m).indexers[0].enabled,
{
}


/// A blank password field means "leave it": a password the window sends blank, or does not
/// send, leaves the stored one as it was, whatever else it sends; one it sends filled in
/// replaces it, trimmed. So it is for the news server and for the subtitle account alike.
pub proof fn law_a_blank_password_leaves_the_stored_one(m: SettingsModel, incoming: Json)
    ensures
        (text_field(incoming, "subtitles_password"@) matches Some(sent) ==> sent.len() == 0)
            ==> applied(m, incoming).subtitles_password == m.subtitles_password,
        (text_field(incoming, "news_password"@) matches Some(sent) ==> sent.len() == 0)
            ==> applied(m, incoming).news_password == m.news_password,
        text_field(incoming, "subtitles_password"@) matches Some(sent) ==> (sent.len() > 0
            ==> applied(m, incoming).subtitles_password == sent),
        text_field(incoming, "news_password"@) matches Some(sent) ==> (sent.len() > 0 ==> applied(
            m,
            incoming,
        ).news_password == sent),
{
}

} // verus!
