//! The configuration of the browser, read from a TOML text.

use crate::app::SortMode;
use crate::text;
use vstd::prelude::*;

verus! {

/// User configuration. Every field is optional; a missing or malformed file
/// yields all defaults.
#[derive(Debug)]
pub struct Config {
    /// "current" (launch directory only) or "all" (every project).
    pub scope: String,
    /// "date", "size", "duration", or "messages".
    pub sort: String,
    /// Start with tool-use activity shown in the preview.
    pub show_tool_activity: bool,
}

/// A configuration, over texts.
#[verifier::ext_equal]
pub struct ConfigView {
    pub scope: Seq<char>,
    pub sort: Seq<char>,
    pub show_tool_activity: bool,
}

impl View for Config {
    type V = ConfigView;

    open spec fn view(&self) -> ConfigView {
        ConfigView {
            scope: self.scope@,
            sort: self.sort@,
            show_tool_activity: self.show_tool_activity,
        }
    }
}

/// The configuration where nothing is configured.
pub open spec fn defaults() -> ConfigView {
    ConfigView { scope: "current"@, sort: "date"@, show_tool_activity: false }
}

impl Default for Config {
    fn default() -> (r: Config)
        ensures
            r@ == defaults(),
    {
        Config { scope: "current".to_owned(), sort: "date".to_owned(), show_tool_activity: false }
    }
}

/// The sort mode that a text in lower case names: the date where it names none.
pub open spec fn named_mode(s: Seq<char>) -> SortMode {
    if s == "size"@ {
        SortMode::Size
    } else if s == "duration"@ {
        SortMode::Duration
    } else if s == "messages"@ {
        SortMode::Messages
    } else {
        SortMode::Date
    }
}

/// The sort mode that a text in lower case names.
pub fn mode_named(s: &str) -> (r: SortMode)
    ensures
        r == named_mode(s@),
{
    if text::text_eq(s, "size") {
        SortMode::Size
    } else if text::text_eq(s, "duration") {
        SortMode::Duration
    } else if text::text_eq(s, "messages") {
        SortMode::Messages
    } else {
        SortMode::Date
    }
}

/// The label of a sort mode names it.
pub proof fn label_names_the_mode(m: SortMode)
    ensures
        named_mode(m.label_text()) == m,
{
    reveal_strlit("date");
    reveal_strlit("size");
    reveal_strlit("duration");
    reveal_strlit("messages");
    assert("date"@[0] == 'd' && "date"@[1] == 'a');
    assert("size"@[0] == 's');
    assert("duration"@[0] == 'd' && "duration"@[1] == 'u');
    assert("messages"@[0] == 'm');
}

impl Config {
    /// Whether the sessions of every project are to be listed.
    pub fn scope_is_all(&self) -> (r: bool)
        ensures
            r == (text::ascii_uppercase(self.scope@) == text::ascii_uppercase("all"@)),
    {
        text::eq_ignoring_case(self.scope.as_str(), "all")
    }

    /// The sort mode to start with.
    pub fn sort_mode(&self) -> (r: SortMode)
        ensures
            r == named_mode(text::lowercase(self.sort@)),
    {
        let lower = self.sort.as_str().to_lowercase();
        mode_named(lower.as_str())
    }
}

/// A value of the configuration file.
pub enum Setting {
    Text(String),
    Flag(bool),
    /// A value of any other kind.
    Other,
}

/// A value of the configuration file, over texts.
#[verifier::ext_equal]
pub enum SettingView {
    Text(Seq<char>),
    Flag(bool),
    Other,
}

impl View for Setting {
    type V = SettingView;

    open spec fn view(&self) -> SettingView {
        match self {
            Setting::Text(s) => SettingView::Text(s@),
            Setting::Flag(b) => SettingView::Flag(*b),
            Setting::Other => SettingView::Other,
        }
    }
}

/// The keys and values of a table, over texts.
pub open spec fn settings_view(v: Seq<(String, Setting)>) -> Seq<(Seq<char>, SettingView)> {
    Seq::new(v.len(), |i: int| (v[i].0@, v[i].1@))
}

/// The keys and values at the top of the table that `toml::de::DeTable::parse`
/// reads from a text, in the order of the table; nothing where the text is no
/// TOML.
pub uninterp spec fn toml_settings(s: Seq<char>) -> Option<Seq<(Seq<char>, SettingView)>>;

/// `toml::de::DeTable::parse` reads a table from a text, or fails; both depend on
/// the text alone. Texts and flags at the top of the table are handed on; of
/// other values, whose range it does not look at, only that they are there.
#[verifier::external_body]
fn read_settings(s: &str) -> (r: Option<Vec<(String, Setting)>>)
    ensures
        match r {
            Some(v) => toml_settings(s@) == Some(settings_view(v@)),
            None => toml_settings(s@) is None,
        },
{
    let table = toml::de::DeTable::parse(s).ok()?.into_inner();
    let pairs = table.into_iter().map(
        |(key, value)| match value.into_inner() {
            toml::de::DeValue::String(t) => (key.into_inner().into_owned(), Setting::Text(t.into_owned())),
            toml::de::DeValue::Boolean(b) => (key.into_inner().into_owned(), Setting::Flag(b)),
            _ => (key.into_inner().into_owned(), Setting::Other),
        },
    );
    Some(pairs.collect())
}

/// Whether `toml::from_str` reads a text from which nothing is asked for: it is
/// TOML, and no number in it is out of range.
pub uninterp spec fn toml_in_range(s: Seq<char>) -> bool;

/// `toml::from_str` for a value that passes everything over succeeds or fails by
/// the text alone. It fails where a text is no TOML, and where an integer of it
/// does not fit 128 bits or a floating-point number of it overflows.
#[verifier::external_body]
fn is_in_range(s: &str) -> (r: bool)
    ensures
        r == toml_in_range(s@),
{
    toml::from_str::<serde::de::IgnoredAny>(s).is_ok()
}

/// The settings that a text tells: nothing where it is no TOML, or holds a number
/// that is out of range.
pub open spec fn settings_in(s: Seq<char>) -> Option<Seq<(Seq<char>, SettingView)>> {
    if toml_in_range(s) {
        toml_settings(s)
    } else {
        None
    }
}

/// The value under a key, if there is one.
pub open spec fn setting(v: Seq<(Seq<char>, SettingView)>, key: Seq<char>) -> Option<SettingView>
    decreases v.len(),
{
    if v.len() == 0 {
        None
    } else if v.last().0 == key {
        Some(v.last().1)
    } else {
        setting(v.drop_last(), key)
    }
}

/// Whether a value may be a text or may be left out.
pub open spec fn text_or_none(s: Option<SettingView>) -> bool {
    s is None || s->0 is Text
}

/// Whether a value may be a flag or may be left out.
pub open spec fn flag_or_none(s: Option<SettingView>) -> bool {
    s is None || s->0 is Flag
}

/// A text, or a default where it is left out.
pub open spec fn text_or(s: Option<SettingView>, default: Seq<char>) -> Seq<char> {
    match s {
        Some(SettingView::Text(t)) => t,
        _ => default,
    }
}

/// The configuration that settings tell: defaults for those left out, and for all
/// of them where one is of the wrong kind or there are no settings.
pub open spec fn configured(settings: Option<Seq<(Seq<char>, SettingView)>>) -> ConfigView {
    match settings {
        Some(v) => {
            let scope = setting(v, "scope"@);
            let sort = setting(v, "sort"@);
            let tools = setting(v, "show_tool_activity"@);
            if text_or_none(scope) && text_or_none(sort) && flag_or_none(tools) {
                ConfigView {
                    scope: text_or(scope, defaults().scope),
                    sort: text_or(sort, defaults().sort),
                    show_tool_activity: tools is Some && tools->0->Flag_0,
                }
            } else {
                defaults()
            }
        },
        None => defaults(),
    }
}

/// The value under a key, if there is one.
fn setting_of<'b>(v: &'b Vec<(String, Setting)>, key: &str) -> (r: Option<&'b Setting>)
    ensures
        match r {
            Some(s) => setting(settings_view(v@), key@) == Some(s@),
            None => setting(settings_view(v@), key@) is None,
        },
{
    let ghost all = settings_view(v@);
    let mut i: usize = v.len();
    assert(all.take(all.len() as int) =~= all);
    while i > 0
        invariant
            i <= v@.len(),
            all == settings_view(v@),
            setting(all, key@) == setting(all.take(i as int), key@),
        decreases i,
    {
        assert(all.take(i as int).drop_last() =~= all.take(i - 1));
        assert(all.take(i as int).last() == all[i - 1]);
        if text::text_eq(v[i - 1].0.as_str(), key) {
            return Some(&v[i - 1].1);
        }
        i -= 1;
    }
    None
}

/// The configuration that settings tell.
pub fn config_of(settings: &Vec<(String, Setting)>) -> (r: Config)
    ensures
        r@ == configured(Some(settings_view(settings@))),
{
    let scope = match setting_of(settings, "scope") {
        Some(Setting::Text(t)) => t.clone(),
        None => "current".to_owned(),
        _ => {
            return Config::default();
        },
    };
    let sort = match setting_of(settings, "sort") {
        Some(Setting::Text(t)) => t.clone(),
        None => "date".to_owned(),
        _ => {
            return Config::default();
        },
    };
    let show_tool_activity = match setting_of(settings, "show_tool_activity") {
        Some(Setting::Flag(b)) => *b,
        None => false,
        _ => {
            return Config::default();
        },
    };
    Config { scope, sort, show_tool_activity }
}

/// Parse config from a TOML string, falling back to defaults on any error.
pub fn parse_config(s: &str) -> (r: Config)
    ensures
        r@ == configured(settings_in(s@)),
{
    if !is_in_range(s) {
        return Config::default();
    }
    match read_settings(s) {
        Some(v) => config_of(&v),
        None => Config::default(),
    }
}

/// The configuration that a file holds, or defaults if it is absent or
/// unreadable.
pub fn load(contents: Option<&str>) -> (r: Config)
    ensures
        r@ == match contents {
            Some(s) => configured(settings_in(s@)),
            None => defaults(),
        },
{
    match contents {
        Some(s) => parse_config(s),
        None => Config::default(),
    }
}

/// A setting is the last value under its key.
pub proof fn last_setting_counts(
    x: Seq<(Seq<char>, SettingView)>,
    key: Seq<char>,
    value: SettingView,
    y: Seq<(Seq<char>, SettingView)>,
)
    requires
        forall|i: int| 0 <= i < y.len() ==> (#[trigger] y[i]).0 != key,
    ensures
        setting(x.push((key, value)) + y, key) == Some(value),
        setting(y, key) is None,
    decreases y.len(),
{
    let all = x.push((key, value)) + y;
    if y.len() == 0 {
        assert(all =~= x.push((key, value)));
    } else {
        let front = y.drop_last();
        assert forall|i: int| 0 <= i < front.len() implies (#[trigger] front[i]).0 != key by {
            assert(front[i] == y[i]);
        }
        last_setting_counts(x, key, value, front);
        assert(all.drop_last() =~= x.push((key, value)) + front);
        assert(y[y.len() - 1].0 != key);
    }
}

/// Each setting counts where it is there and of its kind, and is the default where it is
/// left out; one of a wrong kind, or a text that is no TOML, leaves the defaults alone.
pub proof fn settings_count_or_are_defaults(v: Seq<(Seq<char>, SettingView)>)
    ensures
        ({
            let scope = setting(v, "scope"@);
            let sort = setting(v, "sort"@);
            let tools = setting(v, "show_tool_activity"@);
            let told = configured(Some(v));
            let sound = (scope is None || scope->0 is Text) && (sort is None || sort->0 is Text)
                && (tools is None || tools->0 is Flag);
            &&& sound && scope is Some ==> told.scope == scope->0->Text_0
            &&& sound && scope is None ==> told.scope == "current"@
            &&& sound && sort is Some ==> told.sort == sort->0->Text_0
            &&& sound && sort is None ==> told.sort == "date"@
            &&& sound && tools is Some ==> told.show_tool_activity == tools->0->Flag_0
            &&& sound && tools is None ==> !told.show_tool_activity
            &&& !sound ==> told == (ConfigView {
                scope: "current"@,
                sort: "date"@,
                show_tool_activity: false,
            })
        }),
        configured(None) == (ConfigView {
            scope: "current"@,
            sort: "date"@,
            show_tool_activity: false,
        }),
{
}

/// The words for the orders are size, duration and messages; all else is the date.
pub proof fn orders_are_named(s: Seq<char>)
    ensures
        named_mode("size"@) == SortMode::Size,
        named_mode("duration"@) == SortMode::Duration,
        named_mode("messages"@) == SortMode::Messages,
        s != "size"@ && s != "duration"@ && s != "messages"@ ==> named_mode(s) == SortMode::Date,
{
    reveal_strlit("size");
    reveal_strlit("duration");
    reveal_strlit("messages");
    assert("size"@.len() == 4);
    assert("duration"@[0] == 'd');
    assert("messages"@[0] == 'm');
}

} // verus!
