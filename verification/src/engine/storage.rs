//! The records the application keeps in its local database (sources, news,
//! scheduled tasks and settings), and how they are made from and turned into
//! database rows and key/value entries.

use vstd::prelude::*;
use crate::json::{
    decode_string_map, decode_strings, encode_string_map, encode_strings, last_of_each_key, json_decode_string_map,
    json_decode_strings, json_encode_string_map, json_encode_strings, pair_views, pairs_map, views,
};
use crate::keyed::{keyed_map, lemma_keyed_map_get, unique_keys};
use crate::text::{ascii_lower, ascii_uppercase, lemma_upper_then_lower, chars_of, concat, lower_equals, lower_equals_exec, owned, same_text};

verus! {

/// Errors of the storage layer.
#[derive(Debug)]
pub enum StorageError {
    /// The database reported an error, described by the text.
    Database(String),
    /// The requested record does not exist.
    NotFound,
}

/// The text of a storage error.
pub open spec fn storage_error_text(e: StorageError) -> Seq<char> {
    match e {
        StorageError::Database(d) => "数据库错误: "@ + d@,
        StorageError::NotFound => "数据不存在"@,
    }
}

impl StorageError {
    /// The displayed text of the error.
    pub fn to_string(&self) -> (r: String)
        ensures
            r@ == storage_error_text(*self),
    {
        match self {
            StorageError::Database(d) => concat("数据库错误: ", d.as_str()),
            StorageError::NotFound => owned("数据不存在"),
        }
    }
}

/// A subscribed source of news.
pub struct Source {
    pub id: i64,
    pub name: String,
    pub url: String,
    pub source_type: SourceType,
    pub category: String,
    pub enabled: bool,
    pub created_at: String,
    pub updated_at: String,
}

/// The kinds of source.
pub enum SourceType {
    Rss,
    Website,
    Firecrawl,
    Jina,
}

/// The name of a source kind, as displayed and stored.
pub open spec fn source_type_name(t: SourceType) -> Seq<char> {
    match t {
        SourceType::Rss => "rss"@,
        SourceType::Website => "website"@,
        SourceType::Firecrawl => "firecrawl"@,
        SourceType::Jina => "jina"@,
    }
}

/// What parsing a source kind gives: the kind whose name `s` is, compared
/// without regard to case, or an error naming `s`.
pub open spec fn parse_source_type(s: Seq<char>) -> Result<SourceType, Seq<char>> {
    if lower_equals(s, "rss"@) {
        Ok(SourceType::Rss)
    } else if lower_equals(s, "website"@) {
        Ok(SourceType::Website)
    } else if lower_equals(s, "firecrawl"@) {
        Ok(SourceType::Firecrawl)
    } else if lower_equals(s, "jina"@) {
        Ok(SourceType::Jina)
    } else {
        Err("Unknown source type: "@ + s)
    }
}

/// The kind named by stored text, `Website` when the text names none.
pub open spec fn source_type_or_website(s: Seq<char>) -> SourceType {
    match parse_source_type(s) {
        Ok(t) => t,
        Err(_) => SourceType::Website,
    }
}

impl SourceType {
    /// The displayed name of the kind.
    pub fn to_string(&self) -> (r: String)
        ensures
            r@ == source_type_name(*self),
    {
        match self {
            SourceType::Rss => owned("rss"),
            SourceType::Website => owned("website"),
            SourceType::Firecrawl => owned("firecrawl"),
            SourceType::Jina => owned("jina"),
        }
    }

    /// Parses a kind name, ignoring case.
    pub fn from_name(s: &str) -> (r: Result<SourceType, String>)
        ensures
            match parse_source_type(s@) {
                Ok(t) => r == Ok::<SourceType, String>(t),
                Err(e) => r matches Err(m) && m@ == e,
            },
    {
        let v = chars_of(s);
        if lower_equals_exec(&v, "rss") {
            Ok(SourceType::Rss)
        } else if lower_equals_exec(&v, "website") {
            Ok(SourceType::Website)
        } else if lower_equals_exec(&v, "firecrawl") {
            Ok(SourceType::Firecrawl)
        } else if lower_equals_exec(&v, "jina") {
            Ok(SourceType::Jina)
        } else {
            Err(concat("Unknown source type: ", s))
        }
    }
}

/// Any text that lower-cases to the name of a source kind parses as that
/// kind, whatever the case of its letters.
pub proof fn lemma_source_type_parse_ignores_case(t: SourceType, s: Seq<char>)
    requires
        lower_equals(s, source_type_name(t)),
    ensures
        parse_source_type(s) == Ok::<SourceType, Seq<char>>(t),
{
    reveal_strlit("rss");
    reveal_strlit("website");
    reveal_strlit("firecrawl");
    reveal_strlit("jina");
}

/// The displayed name of a source kind parses as that kind, and so does
/// the name in upper case.
pub proof fn lemma_source_type_name_parses(t: SourceType)
    ensures
        parse_source_type(source_type_name(t)) == Ok::<SourceType, Seq<char>>(t),
        parse_source_type(ascii_uppercase(source_type_name(t))) == Ok::<SourceType, Seq<char>>(t),
{
    reveal_strlit("rss");
    reveal_strlit("website");
    reveal_strlit("firecrawl");
    reveal_strlit("jina");
    let n = source_type_name(t);
    assert forall|i: int| 0 <= i < n.len() implies ascii_lower(#[trigger] n[i]) == n[i] by {}
    assert forall|i: int| 0 <= i < n.len() implies 'a' <= #[trigger] n[i] <= 'z' by {}
    lemma_upper_then_lower(n);
    lemma_source_type_parse_ignores_case(t, n);
    lemma_source_type_parse_ignores_case(t, ascii_uppercase(n));
}

/// Text that lower-cases to the name of no source kind is refused, with a
/// message that repeats the text as it was given.
pub proof fn lemma_source_type_unknown(s: Seq<char>)
    requires
        forall|t: SourceType| !lower_equals(s, #[trigger] source_type_name(t)),
    ensures
        parse_source_type(s) == Err::<SourceType, Seq<char>>("Unknown source type: "@ + s),
{
    assert(!lower_equals(s, source_type_name(SourceType::Rss)));
    assert(!lower_equals(s, source_type_name(SourceType::Website)));
    assert(!lower_equals(s, source_type_name(SourceType::Firecrawl)));
    assert(!lower_equals(s, source_type_name(SourceType::Jina)));
}

/// A stored news item.
pub struct News {
    pub id: i64,
    pub title: String,
    pub content: String,
    pub summary: Option<String>,
    pub url: String,
    pub source_id: i64,
    pub category: String,
    pub published_at: String,
    pub created_at: String,
}

/// A scheduled task.
pub struct Task {
    pub id: i64,
    pub name: String,
    pub cron_expression: String,
    pub enabled: bool,
    pub action: TaskAction,
    pub created_at: String,
}

/// What a task does.
pub enum TaskAction {
    Collect,
    Process,
    Push,
    All,
}

/// The name of a task action, as displayed and stored.
pub open spec fn task_action_name(a: TaskAction) -> Seq<char> {
    match a {
        TaskAction::Collect => "collect"@,
        TaskAction::Process => "process"@,
        TaskAction::Push => "push"@,
        TaskAction::All => "all"@,
    }
}

/// What parsing a task action gives: the action whose name `s` is, compared
/// without regard to case, or an error naming `s`.
pub open spec fn parse_task_action(s: Seq<char>) -> Result<TaskAction, Seq<char>> {
    if lower_equals(s, "collect"@) {
        Ok(TaskAction::Collect)
    } else if lower_equals(s, "process"@) {
        Ok(TaskAction::Process)
    } else if lower_equals(s, "push"@) {
        Ok(TaskAction::Push)
    } else if lower_equals(s, "all"@) {
        Ok(TaskAction::All)
    } else {
        Err("Unknown task action: "@ + s)
    }
}

/// The action named by stored text, `All` when the text names none.
pub open spec fn task_action_or_all(s: Seq<char>) -> TaskAction {
    match parse_task_action(s) {
        Ok(a) => a,
        Err(_) => TaskAction::All,
    }
}

impl TaskAction {
    /// The displayed name of the action.
    pub fn to_string(&self) -> (r: String)
        ensures
            r@ == task_action_name(*self),
    {
        match self {
            TaskAction::Collect => owned("collect"),
            TaskAction::Process => owned("process"),
            TaskAction::Push => owned("push"),
            TaskAction::All => owned("all"),
        }
    }

    /// Parses an action name, ignoring case.
    pub fn from_name(s: &str) -> (r: Result<TaskAction, String>)
        ensures
            match parse_task_action(s@) {
                Ok(a) => r == Ok::<TaskAction, String>(a),
                Err(e) => r matches Err(m) && m@ == e,
            },
    {
        let v = chars_of(s);
        if lower_equals_exec(&v, "collect") {
            Ok(TaskAction::Collect)
        } else if lower_equals_exec(&v, "process") {
            Ok(TaskAction::Process)
        } else if lower_equals_exec(&v, "push") {
            Ok(TaskAction::Push)
        } else if lower_equals_exec(&v, "all") {
            Ok(TaskAction::All)
        } else {
            Err(concat("Unknown task action: ", s))
        }
    }
}

/// Any text that lower-cases to the name of a task action parses as that
/// action, whatever the case of its letters.
pub proof fn lemma_task_action_parse_ignores_case(a: TaskAction, s: Seq<char>)
    requires
        lower_equals(s, task_action_name(a)),
    ensures
        parse_task_action(s) == Ok::<TaskAction, Seq<char>>(a),
{
    reveal_strlit("collect");
    reveal_strlit("process");
    reveal_strlit("push");
    reveal_strlit("all");
    if a is Process {
        assert(ascii_lower(s[0]) != "collect"@[0]);
    }
}

/// The displayed name of a task action parses as that action, and so does
/// the name in upper case.
pub proof fn lemma_task_action_name_parses(a: TaskAction)
    ensures
        parse_task_action(task_action_name(a)) == Ok::<TaskAction, Seq<char>>(a),
        parse_task_action(ascii_uppercase(task_action_name(a))) == Ok::<TaskAction, Seq<char>>(a),
{
    reveal_strlit("collect");
    reveal_strlit("process");
    reveal_strlit("push");
    reveal_strlit("all");
    let n = task_action_name(a);
    assert forall|i: int| 0 <= i < n.len() implies ascii_lower(#[trigger] n[i]) == n[i] by {}
    assert forall|i: int| 0 <= i < n.len() implies 'a' <= #[trigger] n[i] <= 'z' by {}
    lemma_upper_then_lower(n);
    lemma_task_action_parse_ignores_case(a, n);
    lemma_task_action_parse_ignores_case(a, ascii_uppercase(n));
}

/// Text that lower-cases to the name of no task action is refused, with a
/// message that repeats the text as it was given.
pub proof fn lemma_task_action_unknown(s: Seq<char>)
    requires
        forall|a: TaskAction| !lower_equals(s, #[trigger] task_action_name(a)),
    ensures
        parse_task_action(s) == Err::<TaskAction, Seq<char>>("Unknown task action: "@ + s),
{
    assert(!lower_equals(s, task_action_name(TaskAction::Collect)));
    assert(!lower_equals(s, task_action_name(TaskAction::Process)));
    assert(!lower_equals(s, task_action_name(TaskAction::Push)));
    assert(!lower_equals(s, task_action_name(TaskAction::All)));
}

impl Source {
    /// The source a database row describes: the stored kind text is parsed
    /// (an unknown kind reads as `Website`) and the stored flag is enabled
    /// exactly when it is 1.
    pub fn from_row(
        id: i64,
        name: String,
        url: String,
        source_type: &str,
        category: String,
        enabled: i32,
        created_at: String,
        updated_at: String,
    ) -> (r: Source)
        ensures
            r.id == id,
            r.name == name,
            r.url == url,
            r.source_type == source_type_or_website(source_type@),
            r.category == category,
            r.enabled == (enabled == 1),
            r.created_at == created_at,
            r.updated_at == updated_at,
    {
        let kind = match SourceType::from_name(source_type) {
            Ok(t) => t,
            Err(_) => SourceType::Website,
        };
        Source {
            id,
            name,
            url,
            source_type: kind,
            category,
            enabled: enabled == 1,
            created_at,
            updated_at,
        }
    }

    /// The source just added under row id `id` at time `now`: enabled, with
    /// creation and update time `now`, the kind parsed as in `from_row`.
    pub fn created(
        id: i64,
        name: &str,
        url: &str,
        source_type: &str,
        category: &str,
        now: &str,
    ) -> (r: Source)
        ensures
            r.id == id,
            r.name@ == name@,
            r.url@ == url@,
            r.source_type == source_type_or_website(source_type@),
            r.category@ == category@,
            r.enabled,
            r.created_at@ == now@,
            r.updated_at@ == now@,
    {
        Source::from_row(
            id,
            owned(name),
            owned(url),
            source_type,
            owned(category),
            1,
            owned(now),
            owned(now),
        )
    }
}

impl Task {
    /// The task a database row describes: the stored action text is parsed
    /// (an unknown action reads as `All`) and the stored flag is enabled
    /// exactly when it is 1.
    pub fn from_row(
        id: i64,
        name: String,
        cron_expression: String,
        enabled: i32,
        action: &str,
        created_at: String,
    ) -> (r: Task)
        ensures
            r.id == id,
            r.name == name,
            r.cron_expression == cron_expression,
            r.enabled == (enabled == 1),
            r.action == task_action_or_all(action@),
            r.created_at == created_at,
    {
        let a = match TaskAction::from_name(action) {
            Ok(a) => a,
            Err(_) => TaskAction::All,
        };
        Task { id, name, cron_expression, enabled: enabled == 1, action: a, created_at }
    }

    /// The task just added under row id `id` at time `now`: enabled, the
    /// action parsed as in `from_row`.
    pub fn created(id: i64, name: &str, cron_expression: &str, action: &str, now: &str) -> (r: Task)
        ensures
            r.id == id,
            r.name@ == name@,
            r.cron_expression@ == cron_expression@,
            r.enabled,
            r.action == task_action_or_all(action@),
            r.created_at@ == now@,
    {
        Task::from_row(id, owned(name), owned(cron_expression), 1, action, owned(now))
    }
}

/// The application settings.
pub struct Settings {
    pub ai_provider: String,
    pub api_key: String,
    pub model: String,
    pub push_channels: Vec<String>,
    /// The target address of each channel, as (channel, target) pairs, a
    /// later pair replacing an earlier one of the same channel (the view is
    /// the map they make). A list of pairs stands for the map: vstd
    /// specifies `HashMap` contents only for keys whose hashing it models,
    /// and with `String` keys nothing about the contents could be proved.
    pub channel_targets: Vec<(String, String)>,
    pub timezone: String,
}

#[verifier::ext_equal]
/// The settings as values: the channel targets as a map (a later pair
/// replaces an earlier one with the same channel).
pub struct SettingsView {
    pub ai_provider: Seq<char>,
    pub api_key: Seq<char>,
    pub model: Seq<char>,
    pub push_channels: Seq<Seq<char>>,
    pub channel_targets: Map<Seq<char>, Seq<char>>,
    pub timezone: Seq<char>,
}

impl View for Settings {
    type V = SettingsView;

    open spec fn view(&self) -> SettingsView {
        SettingsView {
            ai_provider: self.ai_provider@,
            api_key: self.api_key@,
            model: self.model@,
            push_channels: views(self.push_channels@),
            channel_targets: pairs_map(pair_views(self.channel_targets@)),
            timezone: self.timezone@,
        }
    }
}

/// The settings before any entry is stored.
pub open spec fn default_settings() -> SettingsView {
    SettingsView {
        ai_provider: "openai"@,
        api_key: Seq::empty(),
        model: "gpt-4o-mini"@,
        push_channels: Seq::empty(),
        channel_targets: Map::empty(),
        timezone: "Asia/Shanghai"@,
    }
}

/// The settings after reading the stored entry `key = value`: the known keys
/// replace their field (the list and the map are read as JSON, an unreadable
/// value giving an empty one); other keys change nothing.
pub open spec fn apply_entry(s: SettingsView, key: Seq<char>, value: Seq<char>) -> SettingsView {
    if key == "ai_provider"@ {
        SettingsView { ai_provider: value, ..s }
    } else if key == "api_key"@ {
        SettingsView { api_key: value, ..s }
    } else if key == "model"@ {
        SettingsView { model: value, ..s }
    } else if key == "push_channels"@ {
        SettingsView {
            push_channels: match json_decode_strings(value) {
                Some(l) => l,
                None => Seq::empty(),
            },
            ..s
        }
    } else if key == "channel_targets"@ {
        SettingsView {
            channel_targets: match json_decode_string_map(value) {
                Some(m) => m,
                None => Map::empty(),
            },
            ..s
        }
    } else if key == "timezone"@ {
        SettingsView { timezone: value, ..s }
    } else {
        s
    }
}

/// The settings after reading the stored entries in order, starting from
/// the defaults.
pub open spec fn settings_from(entries: Seq<(Seq<char>, Seq<char>)>) -> SettingsView
    decreases entries.len(),
{
    if entries.len() == 0 {
        default_settings()
    } else {
        let e = entries.last();
        apply_entry(settings_from(entries.drop_last()), e.0, e.1)
    }
}

/// The value stored under `key`, or `default` when there is none.
pub open spec fn stored_or(m: Map<Seq<char>, Seq<char>>, key: Seq<char>, default: Seq<char>) -> Seq<
    char,
> {
    if m.contains_key(key) {
        m[key]
    } else {
        default
    }
}

/// The settings that stored values give: each field from the value under
/// its key (the list and the map read as JSON, an unreadable value giving an
/// empty one), the default where no value is stored.
pub open spec fn settings_of_map(m: Map<Seq<char>, Seq<char>>) -> SettingsView {
    SettingsView {
        ai_provider: stored_or(m, "ai_provider"@, "openai"@),
        api_key: stored_or(m, "api_key"@, Seq::empty()),
        model: stored_or(m, "model"@, "gpt-4o-mini"@),
        push_channels: if m.contains_key("push_channels"@) {
            match json_decode_strings(m["push_channels"@]) {
                Some(l) => l,
                None => Seq::empty(),
            }
        } else {
            Seq::empty()
        },
        channel_targets: if m.contains_key("channel_targets"@) {
            match json_decode_string_map(m["channel_targets"@]) {
                Some(t) => t,
                None => Map::empty(),
            }
        } else {
            Map::empty()
        },
        timezone: stored_or(m, "timezone"@, "Asia/Shanghai"@),
    }
}

/// Reading stored entries in order gives the settings that the last entry
/// of each key gives: the order of entries with different keys does not
/// matter.
pub proof fn lemma_settings_from_last_entries(rows: Seq<(Seq<char>, Seq<char>)>)
    ensures
        settings_from(rows) == settings_of_map(keyed_map(rows)),
    decreases rows.len(),
{
    reveal_strlit("ai_provider");
    reveal_strlit("api_key");
    reveal_strlit("model");
    reveal_strlit("push_channels");
    reveal_strlit("channel_targets");
    reveal_strlit("timezone");
    if rows.len() == 0 {
        assert(settings_of_map(Map::empty()) =~= default_settings());
    } else {
        lemma_settings_from_last_entries(rows.drop_last());
        let m = keyed_map(rows.drop_last());
        let k = rows.last().0;
        let v = rows.last().1;
        assert(keyed_map(rows) == m.insert(k, v));
        let keys = seq!["ai_provider"@, "api_key"@, "model"@, "push_channels"@, "channel_targets"@, "timezone"@];
        assert(keys[0].len() == 11 && keys[1].len() == 7 && keys[2].len() == 5);
        assert(keys[3].len() == 13 && keys[4].len() == 15 && keys[5].len() == 8);
        let m2 = m.insert(k, v);
        assert forall|i: int| 0 <= i < 6 && #[trigger] keys[i] != k implies m2.contains_key(keys[i])
            == m.contains_key(keys[i]) && (m.contains_key(keys[i]) ==> m2[keys[i]] == m[keys[i]]) by {}
        assert(m2.contains_key(k) && m2[k] == v);
        let a = apply_entry(settings_of_map(m), k, v);
        let b = settings_of_map(m2);
        if k == keys[0] {
            assert(a =~= b);
        } else if k == keys[1] {
            assert(a =~= b);
        } else if k == keys[2] {
            assert(a =~= b);
        } else if k == keys[3] {
            assert(a =~= b);
        } else if k == keys[4] {
            assert(a =~= b);
        } else if k == keys[5] {
            assert(a =~= b);
        } else {
            assert(a =~= b);
        }
    }
}

/// The entries the settings are stored as, in the order they are written:
/// the text fields as they are, the list and the map as JSON.
pub open spec fn settings_entries(s: Settings) -> Seq<(Seq<char>, Seq<char>)> {
    seq![
        ("ai_provider"@, s.ai_provider@),
        ("api_key"@, s.api_key@),
        ("model"@, s.model@),
        ("push_channels"@, json_encode_strings(views(s.push_channels@))),
        ("channel_targets"@, json_encode_string_map(pairs_map(pair_views(s.channel_targets@)))),
        ("timezone"@, s.timezone@),
    ]
}

impl Settings {
    /// The settings before any entry is stored.
    pub fn defaults() -> (r: Settings)
        ensures
            r@ == default_settings(),
    {
        let r = Settings {
            ai_provider: owned("openai"),
            api_key: String::new(),
            model: owned("gpt-4o-mini"),
            push_channels: Vec::new(),
            channel_targets: Vec::new(),
            timezone: owned("Asia/Shanghai"),
        };
        assert(views(r.push_channels@) =~= Seq::<Seq<char>>::empty());
        assert(pair_views(r.channel_targets@) =~= Seq::<(Seq<char>, Seq<char>)>::empty());
        r
    }

    /// Reads one stored entry into the settings.
    pub fn apply_entry(&mut self, key: &str, value: String)
        ensures
            final(self)@ == apply_entry(old(self)@, key@, value@),
    {
        if same_text(key, "ai_provider") {
            self.ai_provider = value;
        } else if same_text(key, "api_key") {
            self.api_key = value;
        } else if same_text(key, "model") {
            self.model = value;
        } else if same_text(key, "push_channels") {
            self.push_channels = match decode_strings(value.as_str()) {
                Some(l) => l,
                None => {
                    let e: Vec<String> = Vec::new();
                    assert(views(e@) =~= Seq::<Seq<char>>::empty());
                    e
                },
            };
        } else if same_text(key, "channel_targets") {
            self.channel_targets = match decode_string_map(value.as_str()) {
                Some(m) => m,
                None => {
                    let e: Vec<(String, String)> = Vec::new();
                    assert(pair_views(e@) =~= Seq::<(Seq<char>, Seq<char>)>::empty());
                    e
                },
            };
        } else if same_text(key, "timezone") {
            self.timezone = value;
        }
    }

    /// The settings that the stored entries give, read in order over the
    /// defaults.
    pub fn from_entries(entries: Vec<(String, String)>) -> (r: Settings)
        ensures
            r@ == settings_from(pair_views(entries@)),
    {
        let mut s = Settings::defaults();
        let mut i: usize = 0;
        while i < entries.len()
            invariant
                i <= entries@.len(),
                s@ == settings_from(pair_views(entries@).take(i as int)),
            decreases entries.len() - i,
        {
            proof {
                assert(pair_views(entries@).take(i + 1).drop_last() =~= pair_views(entries@).take(
                    i as int,
                ));
            }
            let key = entries[i].0.clone();
            let value = entries[i].1.clone();
            s.apply_entry(key.as_str(), value);
            i = i + 1;
        }
        assert(pair_views(entries@).take(entries@.len() as int) =~= pair_views(entries@));
        s
    }

    /// The entries to store for these settings. Reading them back in order
    /// gives the same settings.
    pub fn to_entries(&self) -> (r: Vec<(String, String)>)
        ensures
            pair_views(r@) == settings_entries(*self),
            settings_from(pair_views(r@)) == self@,
            forall|rows: Seq<(Seq<char>, Seq<char>)>|
                unique_keys(rows) && (forall|i: int|
                    0 <= i < r@.len() ==> rows.contains(#[trigger] pair_views(r@)[i]))
                    ==> #[trigger] settings_from(rows) == self@,
    {
        let mut r: Vec<(String, String)> = Vec::new();
        r.push((owned("ai_provider"), self.ai_provider.clone()));
        r.push((owned("api_key"), self.api_key.clone()));
        r.push((owned("model"), self.model.clone()));
        r.push((owned("push_channels"), encode_strings(&self.push_channels)));
        r.push((owned("channel_targets"), encode_string_map(&last_of_each_key(&self.channel_targets))));
        r.push((owned("timezone"), self.timezone.clone()));
        assert(pair_views(r@) =~= settings_entries(*self));
        proof {
            lemma_settings_round_trip(*self);
            let e = settings_entries(*self);
            assert forall|rows: Seq<(Seq<char>, Seq<char>)>|
                unique_keys(rows) && (forall|i: int|
                    0 <= i < r@.len() ==> rows.contains(#[trigger] pair_views(r@)[i]))
                    implies #[trigger] settings_from(rows) == self@ by {
                lemma_settings_from_last_entries(rows);
                lemma_stored_entries_read_back(*self, rows);
            }
        }
        r
    }
}

/// With each key once, a stored list that holds every entry of the settings
/// gives the settings back, when the list and the map read back from their
/// JSON text.
proof fn lemma_stored_entries_read_back(s: Settings, rows: Seq<(Seq<char>, Seq<char>)>)
    requires
        unique_keys(rows),
        forall|i: int| 0 <= i < 6 ==> rows.contains(#[trigger] settings_entries(s)[i]),
        json_decode_strings(json_encode_strings(views(s.push_channels@))) == Some(
            views(s.push_channels@),
        ),
        json_decode_string_map(json_encode_string_map(pairs_map(pair_views(s.channel_targets@))))
            == Some(pairs_map(pair_views(s.channel_targets@))),
    ensures
        settings_of_map(keyed_map(rows)) == s@,
{
    let e = settings_entries(s);
    let m = keyed_map(rows);
    assert forall|i: int| 0 <= i < 6 implies m.contains_key(#[trigger] e[i].0) && m[e[i].0] == e[i].1 by {
        assert(rows.contains(e[i]));
        let j = choose|j: int| 0 <= j < rows.len() && rows[j] == e[i];
        lemma_keyed_map_get(rows, j);
    }
    // one instance for the key of each field
    let keys = seq![e[0].0, e[1].0, e[2].0, e[3].0, e[4].0, e[5].0];
    assert(keys.len() == 6);
    assert(settings_of_map(m) =~= s@);
}

/// Reading back the entries that settings are stored as gives the same
/// settings, when the list and the map read back from their JSON text.
proof fn lemma_settings_round_trip(s: Settings)
    requires
        json_decode_strings(json_encode_strings(views(s.push_channels@))) == Some(
            views(s.push_channels@),
        ),
        json_decode_string_map(json_encode_string_map(pairs_map(pair_views(s.channel_targets@))))
            == Some(pairs_map(pair_views(s.channel_targets@))),
    ensures
        settings_from(settings_entries(s)) == s@,
{
    let e = settings_entries(s);
    reveal_strlit("ai_provider");
    reveal_strlit("api_key");
    reveal_strlit("model");
    reveal_strlit("push_channels");
    reveal_strlit("channel_targets");
    reveal_strlit("timezone");
    assert forall|i: int, j: int| 0 <= i < j < e.len() implies e[i].0 != e[j].0 by {
        assert(e[i].0.len() != e[j].0.len());
    }
    assert forall|i: int| 0 <= i < 6 implies e.contains(#[trigger] e[i]) by {}
    lemma_settings_from_last_entries(e);
    lemma_stored_entries_read_back(s, e);
}

} // verus!
