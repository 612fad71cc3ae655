//! The content tabs and the build-order view's logic: tab labels, the
//! category filter, display names of build-order actions (inject
//! actions are parsed) and race initials.

use vstd::prelude::*;

use crate::text::{ascii_lower, char_to_ascii_lower, has_prefix, push_char, str_starts_with};

verus! {

/// The macro tabs of the application.
#[derive(Clone, Copy, Debug, PartialEq, Eq, Structural)]
pub enum Tab {
    Timeline,
    BuildOrder,
    Charts,
    Chat,
    Insights,
}

/// Message key of a tab's header label.
pub open spec fn tab_label_spec(tab: Tab) -> Seq<char> {
    match tab {
        Tab::Timeline => "tab.timeline"@,
        Tab::BuildOrder => "tab.build_order"@,
        Tab::Charts => "tab.charts"@,
        Tab::Chat => "tab.chat"@,
        Tab::Insights => "tab.insights"@,
    }
}

impl Tab {
    /// The tab's header label: its message key as the active language's
    /// catalogue renders it (`localize`).
    pub fn label<L: Fn(&String) -> String>(self, localize: &L) -> (r: String)
        requires
            localizer_ok(localize),
        ensures
            r@ == localized(localize, tab_label_spec(self)),
    {
        let key = self.label_key().to_owned();
        localize_key(localize, &key)
    }

    /// Message key of the tab's header label.
    pub fn label_key(self) -> (r: &'static str)
        ensures
            r@ == tab_label_spec(self),
    {
        match self {
            Tab::Timeline => "tab.timeline",
            Tab::BuildOrder => "tab.build_order",
            Tab::Charts => "tab.charts",
            Tab::Chat => "tab.chat",
            Tab::Insights => "tab.insights",
        }
    }

    /// All tabs, in header order.
    pub fn all() -> (r: Vec<Tab>)
        ensures
            r@ == seq![Tab::Timeline, Tab::BuildOrder, Tab::Charts, Tab::Chat, Tab::Insights],
    {
        vec![Tab::Timeline, Tab::BuildOrder, Tab::Charts, Tab::Chat, Tab::Insights]
    }
}

/// Category of a build-order entry.
#[derive(Clone, Copy, Debug, PartialEq, Eq, Structural)]
pub enum EntryKind {
    Worker,
    Unit,
    Structure,
    Research,
    Upgrade,
    Inject,
}

/// Message key of the full name of an entry category.
pub open spec fn entry_kind_key_spec(kind: EntryKind) -> Seq<char> {
    match kind {
        EntryKind::Worker => "entrykind.worker"@,
        EntryKind::Unit => "entrykind.unit"@,
        EntryKind::Structure => "entrykind.structure"@,
        EntryKind::Research => "entrykind.research"@,
        EntryKind::Upgrade => "entrykind.upgrade"@,
        EntryKind::Inject => "entrykind.inject"@,
    }
}

/// Message key of the full (localized) name of an entry category.
pub fn entry_kind_name_key(kind: EntryKind) -> (r: &'static str)
    ensures
        r@ == entry_kind_key_spec(kind),
{
    match kind {
        EntryKind::Worker => "entrykind.worker",
        EntryKind::Unit => "entrykind.unit",
        EntryKind::Structure => "entrykind.structure",
        EntryKind::Research => "entrykind.research",
        EntryKind::Upgrade => "entrykind.upgrade",
        EntryKind::Inject => "entrykind.inject",
    }
}

/// The full name of an entry category in the active language: its message
/// key as `localize` renders it.
pub fn entry_kind_full_name<L: Fn(&String) -> String>(kind: EntryKind, localize: &L) -> (r: String)
    requires
        localizer_ok(localize),
    ensures
        r@ == localized(localize, entry_kind_key_spec(kind)),
{
    let key = entry_kind_name_key(kind).to_owned();
    localize_key(localize, &key)
}

/// Category filter of the build-order view: which categories are shown.
#[derive(Clone, Copy, Debug)]
pub struct BuildOrderFilter {
    pub show_workers: bool,
    pub show_units: bool,
    pub show_structures: bool,
    pub show_research: bool,
    pub show_upgrades: bool,
    pub show_injects: bool,
}

impl Default for BuildOrderFilter {
    fn default() -> (r: Self)
        ensures
            r.show_workers && r.show_units && r.show_structures && r.show_research && r.show_upgrades
                && r.show_injects,
    {
        BuildOrderFilter {
            show_workers: true,
            show_units: true,
            show_structures: true,
            show_research: true,
            show_upgrades: true,
            show_injects: true,
        }
    }
}

/// The filter's flag for a category.
pub open spec fn allows_spec(f: BuildOrderFilter, kind: EntryKind) -> bool {
    match kind {
        EntryKind::Worker => f.show_workers,
        EntryKind::Unit => f.show_units,
        EntryKind::Structure => f.show_structures,
        EntryKind::Research => f.show_research,
        EntryKind::Upgrade => f.show_upgrades,
        EntryKind::Inject => f.show_injects,
    }
}

/// 1 for a set flag, 0 otherwise.
pub open spec fn flag(b: bool) -> int {
    if b {
        1
    } else {
        0
    }
}

impl BuildOrderFilter {
    /// Whether entries of `kind` are shown.
    pub fn allows(&self, kind: EntryKind) -> (r: bool)
        ensures
            r == allows_spec(*self, kind),
    {
        match kind {
            EntryKind::Worker => self.show_workers,
            EntryKind::Unit => self.show_units,
            EntryKind::Structure => self.show_structures,
            EntryKind::Research => self.show_research,
            EntryKind::Upgrade => self.show_upgrades,
            EntryKind::Inject => self.show_injects,
        }
    }

    /// Number of categories shown.
    pub fn active_count(&self) -> (r: u32)
        ensures
            r == flag(self.show_workers) + flag(self.show_units) + flag(self.show_structures) + flag(
                self.show_research,
            ) + flag(self.show_upgrades) + flag(self.show_injects),
    {
        let mut n: u32 = 0;
        if self.show_workers {
            n = n + 1;
        }
        if self.show_units {
            n = n + 1;
        }
        if self.show_structures {
            n = n + 1;
        }
        if self.show_research {
            n = n + 1;
        }
        if self.show_upgrades {
            n = n + 1;
        }
        if self.show_injects {
            n = n + 1;
        }
        n
    }
}

/// Initial of a race (`T`, `P`, `Z`, `R` by its first letter, any case),
/// `?` otherwise.
pub open spec fn race_initial_spec(race: Seq<char>) -> char {
    if race.len() == 0 {
        '?'
    } else {
        let c = ascii_lower(race[0]);
        if c == 't' {
            'T'
        } else if c == 'p' {
            'P'
        } else if c == 'z' {
            'Z'
        } else if c == 'r' {
            'R'
        } else {
            '?'
        }
    }
}

/// Initial of a race name: `T`, `P`, `Z`, `R` (random), or `?`.
pub fn race_initial(race: &str) -> (r: char)
    ensures
        r == race_initial_spec(race@),
{
    if race.unicode_len() == 0 {
        return '?';
    }
    let c = char_to_ascii_lower(race.get_char(0));
    if c == 't' {
        'T'
    } else if c == 'p' {
        'P'
    } else if c == 'z' {
        'Z'
    } else if c == 'r' {
        'R'
    } else {
        '?'
    }
}

/// What the (deterministic) localizer `l` renders for the key `key`.
pub open spec fn localized<L: Fn(&String) -> String>(l: &L, key: Seq<char>) -> Seq<char> {
    let (s, out) = choose|s: &String, out: String| s@ == key && #[trigger] call_ensures(l, (s,), out);
    out@
}

/// The localizer can be called on any key and renders equal keys equally.
pub open spec fn localizer_ok<L: Fn(&String) -> String>(l: &L) -> bool {
    &&& forall|s: &String| #[trigger] l.requires((s,))
    &&& forall|s1: &String, s2: &String, o1: String, o2: String|
        #[trigger] call_ensures(l, (s1,), o1) && #[trigger] call_ensures(l, (s2,), o2) && s1@ == s2@
            ==> o1@ == o2@
}

/// Index of the first `c` in `s`, or -1.
pub open spec fn find_char(s: Seq<char>, c: char) -> int
    decreases s.len(),
{
    if s.len() == 0 {
        -1
    } else if find_char(s.drop_last(), c) >= 0 {
        find_char(s.drop_last(), c)
    } else if s.last() == c {
        s.len() - 1
    } else {
        -1
    }
}

/// `s` with every `_` written as `", "`.
pub open spec fn underscores_as_commas(s: Seq<char>) -> Seq<char>
    decreases s.len(),
{
    if s.len() == 0 {
        Seq::empty()
    } else if s.last() == '_' {
        underscores_as_commas(s.drop_last()) + seq![',', ' ']
    } else {
        underscores_as_commas(s.drop_last()).push(s.last())
    }
}

/// Length of the inject prefix `InjectLarva@`.
pub open spec fn inject_prefix_len() -> int {
    12
}

/// Display name of a build-order action: inject actions
/// `InjectLarva@<Type>@<X>_<Y>` read `<inject> @ <type> (<X>, <Y>)`
/// (`<inject> @ <type>` without coordinates); anything else is localized
/// as a whole.
pub open spec fn display_name_spec<L: Fn(&String) -> String>(l: &L, action: Seq<char>) -> Seq<char> {
    if has_prefix(action, "InjectLarva@"@) {
        let rest = action.subrange(inject_prefix_len(), action.len() as int);
        let at = find_char(rest, '@');
        let head = localized(l, "InjectLarva"@) + " @ "@;
        if at >= 0 {
            head + localized(l, rest.subrange(0, at)) + " ("@ + underscores_as_commas(
                rest.subrange(at + 1, rest.len() as int),
            ) + ")"@
        } else {
            head + localized(l, rest)
        }
    } else {
        localized(l, action)
    }
}

/// `find_char` is -1 or the first index of `c`.
proof fn lemma_find_char(s: Seq<char>, c: char)
    ensures
        -1 <= find_char(s, c) < s.len(),
        find_char(s, c) >= 0 ==> s[find_char(s, c)] == c,
        forall|k: int| 0 <= k < s.len() && (find_char(s, c) == -1 || k < find_char(s, c)) ==> s[k] != c,
    decreases s.len(),
{
    if s.len() > 0 {
        let pre = s.drop_last();
        lemma_find_char(pre, c);
        assert forall|k: int| 0 <= k < s.len() && (find_char(s, c) == -1 || k < find_char(s, c)) implies s[k]
            != c by {
            if k < s.len() - 1 {
                assert(pre[k] == s[k]);
            }
        }
    }
}

/// Calls the localizer and ties the result to `localized`.
fn localize_key<L: Fn(&String) -> String>(l: &L, key: &String) -> (r: String)
    requires
        localizer_ok(l),
    ensures
        r@ == localized(l, key@),
{
    let r = l(key);
    proof {
        assert(exists|s: &String, out: String| s@ == key@ && #[trigger] call_ensures(l, (s,), out));
        let (s2, o2) = choose|s: &String, out: String| s@ == key@ && #[trigger] call_ensures(l, (s,), out);
        assert(call_ensures(l, (key,), r) && call_ensures(l, (s2,), o2));
    }
    r
}

/// The characters `s[from..to]` as a `String`.
fn substring(s: &str, from: usize, to: usize) -> (r: String)
    requires
        from <= to <= s@.len(),
    ensures
        r@ == s@.subrange(from as int, to as int),
{
    let mut out = String::new();
    let mut i = from;
    while i < to
        invariant
            from <= i <= to,
            to <= s@.len(),
            out@ == s@.subrange(from as int, i as int),
        decreases to - i,
    {
        push_char(&mut out, s.get_char(i));
        i = i + 1;
        assert(out@ =~= s@.subrange(from as int, i as int));
    }
    out
}

/// Appends the characters of `s`.
fn push_str(out: &mut String, s: &str)
    ensures
        final(out)@ == old(out)@ + s@,
{
    let ghost start = out@;
    let n = s.unicode_len();
    let mut i: usize = 0;
    while i < n
        invariant
            i <= n,
            n == s@.len(),
            out@ == start + s@.subrange(0, i as int),
        decreases n - i,
    {
        push_char(out, s.get_char(i));
        i = i + 1;
        assert(out@ =~= start + s@.subrange(0, i as int));
    }
    assert(s@.subrange(0, n as int) =~= s@);
}

/// Display name of a build-order action, localized by `localize`: inject
/// actions `InjectLarva@Hatchery@45_67` read
/// `"<Inject Larva> @ <Hatchery> (45, 67)"`.
pub fn format_display_name<L: Fn(&String) -> String>(action: &str, localize: &L) -> (r: String)
    requires
        localizer_ok(localize),
    ensures
        r@ == display_name_spec(localize, action@),
{
    if !str_starts_with(action, "InjectLarva@") {
        let key = action.to_owned();
        return localize_key(localize, &key);
    }
    proof {
        reveal_strlit("InjectLarva@");
    }
    let n = action.unicode_len();
    let rest = substring(action, 12, n);
    let inject_key = "InjectLarva".to_owned();
    let mut out = localize_key(localize, &inject_key);
    push_str(&mut out, " @ ");
    let rn = rest.as_str().unicode_len();
    proof {
        lemma_find_char(rest@, '@');
    }
    let mut at: usize = 0;
    while at < rn && rest.as_str().get_char(at) != '@'
        invariant
            at <= rn,
            rn == rest@.len(),
            forall|k: int| 0 <= k < at ==> rest@[k] != '@',
            -1 <= find_char(rest@, '@') < rest@.len(),
            find_char(rest@, '@') >= 0 ==> rest@[find_char(rest@, '@')] == '@',
            forall|k: int|
                0 <= k < rest@.len() && (find_char(rest@, '@') == -1 || k < find_char(rest@, '@')) ==> rest@[k]
                    != '@',
        decreases rn - at,
    {
        at = at + 1;
    }
    if at < rn {
        assert(find_char(rest@, '@') == at);
        let target = substring(rest.as_str(), 0, at);
        let label = localize_key(localize, &target);
        push_str(&mut out, label.as_str());
        push_str(&mut out, " (");
        let ghost before = out@;
        let mut i = at + 1;
        while i < rn
            invariant
                at + 1 <= i <= rn,
                rn == rest@.len(),
                out@ == before + underscores_as_commas(rest@.subrange(at + 1, i as int)),
            decreases rn - i,
        {
            let c = rest.as_str().get_char(i);
            assert(rest@.subrange(at + 1, i + 1).drop_last() =~= rest@.subrange(at + 1, i as int));
            if c == '_' {
                push_char(&mut out, ',');
                push_char(&mut out, ' ');
            } else {
                push_char(&mut out, c);
            }
            i = i + 1;
            assert(out@ =~= before + underscores_as_commas(rest@.subrange(at + 1, i as int)));
        }
        push_char(&mut out, ')');
        proof {
            reveal_strlit(")");
            reveal_strlit(" (");
            reveal_strlit(" @ ");
        }
        assert(out@ =~= display_name_spec(localize, action@));
        out
    } else {
        assert(find_char(rest@, '@') == -1);
        let label = localize_key(localize, &rest);
        push_str(&mut out, label.as_str());
        assert(out@ =~= display_name_spec(localize, action@));
        out
    }
}


/// What `str::to_lowercase` (Unicode lower case) makes of a string.
pub uninterp spec fn unicode_lower(s: Seq<char>) -> Seq<char>;

/// Unicode lower case of `s`, through `str::to_lowercase`. The contract
/// names the result; Unicode's case tables are the standard library's.
#[verifier::external_body]
fn to_lowercase(s: &str) -> (r: String)
    ensures
        r@ == unicode_lower(s@),
{
    s.to_lowercase()
}

/// ASCII lower case of every character of `s`.
pub open spec fn ascii_lower_str(s: Seq<char>) -> Seq<char> {
    s.map_values(|c: char| ascii_lower(c))
}

/// ASCII lower case of a string (other characters unchanged).
fn to_ascii_lowercase(s: &str) -> (r: Vec<char>)
    ensures
        r@ == ascii_lower_str(s@),
{
    let n = s.unicode_len();
    let mut out: Vec<char> = Vec::new();
    let mut i: usize = 0;
    while i < n
        invariant
            i <= n,
            n == s@.len(),
            out@ == ascii_lower_str(s@.subrange(0, i as int)),
        decreases n - i,
    {
        out.push(char_to_ascii_lower(s.get_char(i)));
        i = i + 1;
        assert(out@ =~= ascii_lower_str(s@.subrange(0, i as int)));
    }
    assert(s@.subrange(0, n as int) =~= s@);
    out
}

/// A build-order row is shown: its category passes the filter, and the
/// (already lower-cased) query is empty or found in the action's ASCII
/// lower case or in its display name's lower case.
pub open spec fn row_visible_spec(
    filter: BuildOrderFilter,
    kind: EntryKind,
    action: Seq<char>,
    display_name: Seq<char>,
    query_lower: Seq<char>,
) -> bool {
    &&& allows_spec(filter, kind)
    &&& (query_lower.len() == 0 || crate::map_image::objects::contains_spec(ascii_lower_str(action), query_lower)
        || crate::map_image::objects::contains_spec(unicode_lower(display_name), query_lower))
}

/// Whether a build-order row is listed: the filter allows its category
/// and the search text (lower case) matches its action name, ASCII case
/// ignored, or its display name in lower case.
pub fn row_visible(
    filter: &BuildOrderFilter,
    kind: EntryKind,
    action: &str,
    display_name: &str,
    query_lower: &str,
) -> (r: bool)
    ensures
        r == row_visible_spec(*filter, kind, action@, display_name@, query_lower@),
{
    if !filter.allows(kind) {
        return false;
    }
    if query_lower.unicode_len() == 0 {
        return true;
    }
    let needle = crate::map_image::objects::chars_of(query_lower);
    let hay = to_ascii_lowercase(action);
    if crate::map_image::objects::find_chars(&hay, &needle, 0).is_some() {
        return true;
    }
    let name_lower = to_lowercase(display_name);
    let name_chars = crate::map_image::objects::chars_of(name_lower.as_str());
    crate::map_image::objects::find_chars(&name_chars, &needle, 0).is_some()
}

} // verus!
