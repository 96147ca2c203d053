//! The decisions of the component gallery site: its routes, how component
//! names are shown and searched, which demo and variant a route shows, and
//! the languages it offers.

use vstd::prelude::*;

use crate::otp_edit::same_run;
use crate::text::{chars_of, string_from_chars};

verus! {

/// How a component's demo is shown.
#[derive(Clone, Copy, Debug, PartialEq, Eq, Structural)]
pub enum ComponentType {
    /// Rendered in place.
    Normal,
    /// Rendered inside an iframe, for isolation.
    Block,
}

impl ComponentType {
    /// Whether the code view offers the shared theme stylesheet: every kind
    /// but blocks, which bring their own styles.
    pub fn shows_theme_css(self) -> (b: bool)
        ensures
            b == (self != ComponentType::Block),
    {
        match self {
            ComponentType::Normal => true,
            ComponentType::Block => false,
        }
    }
}

/// A page of the gallery site, with the query flags it carries.
#[derive(Clone, Debug, PartialEq, Eq)]
pub enum Route {
    Home { iframe: Option<bool>, dark_mode: Option<bool> },
    ComponentDemo { name: String, iframe: Option<bool>, dark_mode: Option<bool> },
    ComponentBlockDemo { name: String, variant: Option<String>, dark_mode: Option<bool> },
    EmailClientDashboard { dark_mode: Option<bool> },
}

impl Route {
    /// The `iframe` flag, which only the home and component pages carry.
    pub open spec fn spec_iframe(&self) -> Option<bool> {
        match self {
            Route::Home { iframe, .. } => *iframe,
            Route::ComponentDemo { iframe, .. } => *iframe,
            Route::ComponentBlockDemo { .. } => None,
            Route::EmailClientDashboard { .. } => None,
        }
    }

    /// The `dark_mode` flag, which every page carries.
    pub open spec fn spec_dark_mode(&self) -> Option<bool> {
        match self {
            Route::Home { dark_mode, .. } => *dark_mode,
            Route::ComponentDemo { dark_mode, .. } => *dark_mode,
            Route::ComponentBlockDemo { dark_mode, .. } => *dark_mode,
            Route::EmailClientDashboard { dark_mode } => *dark_mode,
        }
    }

    /// The `iframe` flag of this page (see [`Self::spec_iframe`]).
    pub fn iframe(&self) -> (r: Option<bool>)
        ensures
            r == self.spec_iframe(),
    {
        match self {
            Route::Home { iframe, .. } => *iframe,
            Route::ComponentDemo { iframe, .. } => *iframe,
            Route::ComponentBlockDemo { .. } => None,
            Route::EmailClientDashboard { .. } => None,
        }
    }

    /// The `dark_mode` flag of this page (see [`Self::spec_dark_mode`]).
    pub fn dark_mode(&self) -> (r: Option<bool>)
        ensures
            r == self.spec_dark_mode(),
    {
        match self {
            Route::Home { dark_mode, .. } => *dark_mode,
            Route::ComponentDemo { dark_mode, .. } => *dark_mode,
            Route::ComponentBlockDemo { dark_mode, .. } => *dark_mode,
            Route::EmailClientDashboard { dark_mode } => *dark_mode,
        }
    }

    /// The home page, keeping the flags of the `current` page.
    pub fn home(current: &Route) -> (r: Route)
        ensures
            r == (Route::Home { iframe: current.spec_iframe(), dark_mode: current.spec_dark_mode() }),
    {
        Route::Home { iframe: current.iframe(), dark_mode: current.dark_mode() }
    }

    /// The page of the component `name`, keeping the flags of the `current`
    /// page.
    pub fn component(name: &str, current: &Route) -> (r: Route)
        ensures
            r matches Route::ComponentDemo { name: n, iframe, dark_mode } && n@ == name@
                && iframe == current.spec_iframe() && dark_mode == current.spec_dark_mode(),
    {
        Route::ComponentDemo {
            name: string_from_chars(&chars_of(name)),
            iframe: current.iframe(),
            dark_mode: current.dark_mode(),
        }
    }
}

/// Moving to the home page or to a component page keeps the `iframe` and
/// `dark_mode` flags of the page one comes from.
pub proof fn lemma_navigation_keeps_flags(current: Route, name: String)
    ensures
        (Route::Home { iframe: current.spec_iframe(), dark_mode: current.spec_dark_mode() }).spec_iframe()
            == current.spec_iframe(),
        (Route::Home { iframe: current.spec_iframe(), dark_mode: current.spec_dark_mode() }).spec_dark_mode()
            == current.spec_dark_mode(),
        (Route::ComponentDemo { name, iframe: current.spec_iframe(), dark_mode: current.spec_dark_mode() }).spec_iframe()
            == current.spec_iframe(),
        (Route::ComponentDemo { name, iframe: current.spec_iframe(), dark_mode: current.spec_dark_mode() }).spec_dark_mode()
            == current.spec_dark_mode(),
{
}

/// Whether a route change is posted to the parent window: never for the
/// first route, and only inside an iframe.
pub fn posts_route_change(initial: bool, in_iframe: Option<bool>) -> (post: bool)
    ensures
        post == (!initial && in_iframe == Some(true)),
{
    if initial {
        return false;
    }
    match in_iframe {
        Some(b) => b,
        None => false,
    }
}

/// The title shown for a component: its name with underscores as spaces.
pub open spec fn spec_component_title(name: Seq<char>) -> Seq<char> {
    name.map_values(|c: char| if c == '_' { ' ' } else { c })
}

/// The title shown for the component `name` (see
/// [`spec_component_title`]).
pub fn component_title(name: &str) -> (t: String)
    ensures
        t@ == spec_component_title(name@),
{
    let chars = chars_of(name);
    let mut out: Vec<char> = Vec::new();
    let n = chars.len();
    for i in 0..n
        invariant
            n == chars@.len(),
            chars@ == name@,
            out@ == spec_component_title(chars@.take(i as int)),
    {
        let c = chars[i];
        out.push(if c == '_' { ' ' } else { c });
        assert(spec_component_title(chars@.take(i + 1)) =~= spec_component_title(chars@.take(i as int)).push(
            if c == '_' { ' ' } else { c },
        ));
    }
    assert(chars@.take(n as int) =~= chars@);
    string_from_chars(&out)
}

/// The label of the button that expands or collapses a code block.
pub fn expand_code_label(collapsed: bool) -> (s: &'static str)
    ensures
        collapsed ==> s@ == "Expand code"@,
        !collapsed ==> s@ == "Collapse code"@,
{
    if collapsed {
        "Expand code"
    } else {
        "Collapse code"
    }
}

/// What `str::to_lowercase` makes of `s` (Unicode lowercase mapping).
pub uninterp spec fn lowercase(s: Seq<char>) -> Seq<char>;

/// `str::to_lowercase`: the Unicode lowercase of `s`, named [`lowercase`].
#[verifier::external_body]
fn to_lowercase(s: &str) -> (r: String)
    ensures
        r@ == lowercase(s@),
{
    s.to_lowercase()
}

/// `needle` occurs in `haystack` as a run of consecutive characters.
pub open spec fn occurs_in(needle: Seq<char>, haystack: Seq<char>) -> bool {
    exists|i: int| 0 <= i <= haystack.len() - needle.len() && #[trigger] haystack.subrange(i, i + needle.len()) == needle
}

/// Whether `needle` occurs in `haystack` (see [`occurs_in`]).
pub fn contains_run(haystack: &[char], needle: &[char]) -> (found: bool)
    ensures
        found == occurs_in(needle@, haystack@),
{
    let h = haystack.len();
    let n = needle.len();
    if n > h {
        return false;
    }
    if n == 0 {
        assert(haystack@.subrange(0, 0 + needle@.len() as int) =~= needle@);
        return true;
    }
    let mut i: usize = 0;
    while i <= h - n
        invariant
            0 < n <= h,
            h == haystack@.len(),
            n == needle@.len(),
            forall|j: int| 0 <= j < i ==> #[trigger] haystack@.subrange(j, j + n) != needle@,
        decreases h - n + 1 - i,
    {
        let same = same_run(haystack, i, needle, 0, n);
        assert(needle@.subrange(0, n as int) =~= needle@);
        if same {
            return true;
        }
        i = i + 1;
    }
    false
}

/// A component shows in the gallery when the search is empty or its name
/// contains the search, ignoring case.
pub open spec fn spec_gallery_shows(name: Seq<char>, search: Seq<char>) -> bool {
    search.len() == 0 || occurs_in(lowercase(search), lowercase(name))
}

/// Whether the component `name` shows in the gallery for `search` (see
/// [`spec_gallery_shows`]).
pub fn gallery_shows(name: &str, search: &str) -> (shows: bool)
    ensures
        shows == spec_gallery_shows(name@, search@),
{
    let search_chars = chars_of(search);
    if search_chars.len() == 0 {
        return true;
    }
    let name_lower = to_lowercase(name);
    let search_lower = to_lowercase(search);
    contains_run(&chars_of(name_lower.as_str()), &chars_of(search_lower.as_str()))
}

/// The first position in `names` that holds `wanted`, if any.
pub fn find_by_name(names: &Vec<&str>, wanted: &str) -> (r: Option<usize>)
    ensures
        r matches Some(i) ==> i < names@.len() && names@[i as int]@ == wanted@ && forall|j: int|
            0 <= j < i ==> #[trigger] names@[j]@ != wanted@,
        r is None ==> forall|j: int| 0 <= j < names@.len() ==> #[trigger] names@[j]@ != wanted@,
{
    let wanted_chars = chars_of(wanted);
    let n = names.len();
    for i in 0..n
        invariant
            n == names@.len(),
            wanted_chars@ == wanted@,
            forall|j: int| 0 <= j < i ==> #[trigger] names@[j]@ != wanted@,
    {
        let candidate = chars_of(names[i]);
        if candidate.len() == wanted_chars.len() && contains_run(&candidate, &wanted_chars) {
            proof {
                let k = choose|k: int|
                    0 <= k <= candidate@.len() - wanted_chars@.len() && #[trigger] candidate@.subrange(
                        k,
                        k + wanted_chars@.len(),
                    ) == wanted_chars@;
                assert(k == 0);
                assert(candidate@.subrange(0, candidate@.len() as int) =~= candidate@);
            }
            return Some(i);
        }
        proof {
            if names@[i as int]@ == wanted@ {
                assert(candidate@.subrange(0, 0 + wanted_chars@.len() as int) =~= candidate@);
                assert(occurs_in(wanted_chars@, candidate@));
            }
        }
    }
    None
}

/// The variant a block page shows: the one named in the route, or the
/// first one when the route names none. `None` when the named variant does
/// not exist.
pub fn pick_block_variant(variant_names: &Vec<&str>, wanted: Option<&str>) -> (r: Option<usize>)
    requires
        wanted is None ==> variant_names@.len() > 0,
    ensures
        wanted is None ==> r == Some(0usize),
        wanted matches Some(w) ==> (r matches Some(i) ==> i < variant_names@.len() && variant_names@[i as int]@
            == w@ && forall|j: int| 0 <= j < i ==> #[trigger] variant_names@[j]@ != w@),
        wanted matches Some(w) ==> (r is None ==> forall|j: int|
            0 <= j < variant_names@.len() ==> #[trigger] variant_names@[j]@ != w@),
{
    match wanted {
        Some(w) => find_by_name(variant_names, w),
        None => Some(0),
    }
}

/// The address of a block preview: the route path behind the site's
/// prefix, if any.
pub fn iframe_src(prefix: Option<&str>, route_path: &str) -> (s: String)
    ensures
        prefix matches Some(p) ==> s@ == p@ + route_path@,
        prefix is None ==> s@ == route_path@,
{
    let mut chars = match prefix {
        Some(p) => chars_of(p),
        None => Vec::new(),
    };
    let path = chars_of(route_path);
    let ghost start = chars@;
    let n = path.len();
    for i in 0..n
        invariant
            n == path@.len(),
            chars@ == start + path@.take(i as int),
    {
        chars.push(path[i]);
        assert(path@.take(i + 1) =~= path@.take(i as int).push(path@[i as int]));
    }
    assert(path@.take(n as int) =~= path@);
    string_from_chars(&chars)
}

/// A language the site is offered in.
#[derive(Clone, Copy, Debug, PartialEq, Eq, Structural)]
pub enum Language {
    English,
    French,
    Spanish,
    German,
}

impl Language {
    /// The flag shown for the language.
    pub fn flag(&self) -> (s: &'static str)
        ensures
            s@ == self.spec_flag(),
    {
        match self {
            Language::English => "🇬🇧",
            Language::French => "🇫🇷",
            Language::Spanish => "🇪🇸",
            Language::German => "🇩🇪",
        }
    }

    /// The flag shown for the language.
    pub open spec fn spec_flag(&self) -> Seq<char> {
        match self {
            Language::English => "🇬🇧"@,
            Language::French => "🇫🇷"@,
            Language::Spanish => "🇪🇸"@,
            Language::German => "🇩🇪"@,
        }
    }

    /// The language's own name for itself.
    pub fn localize_name(&self) -> (s: &'static str)
        ensures
            s@ == self.spec_localize_name(),
    {
        match self {
            Language::English => "English",
            Language::French => "Français",
            Language::Spanish => "Español",
            Language::German => "Deutsch",
        }
    }

    /// The language's own name for itself.
    pub open spec fn spec_localize_name(&self) -> Seq<char> {
        match self {
            Language::English => "English"@,
            Language::French => "Français"@,
            Language::Spanish => "Español"@,
            Language::German => "Deutsch"@,
        }
    }

    /// The entry shown in the language menu: the flag, a space, and the
    /// name.
    pub fn display_name(&self) -> (s: String)
        ensures
            s@ == self.spec_flag() + seq![' '] + self.spec_localize_name(),
    {
        let mut chars = chars_of(self.flag());
        chars.push(' ');
        let name = chars_of(self.localize_name());
        let ghost start = chars@;
        let n = name.len();
        for i in 0..n
            invariant
                n == name@.len(),
                chars@ == start + name@.take(i as int),
        {
            chars.push(name[i]);
            assert(name@.take(i + 1) =~= name@.take(i as int).push(name@[i as int]));
        }
        assert(name@.take(n as int) =~= name@);
        string_from_chars(&chars)
    }
}


/// For a non-empty search, a component shows exactly when the lowercased
/// search occurs as a run of consecutive characters somewhere in the
/// lowercased name; an empty search shows every component.
pub proof fn lemma_gallery_search_is_substring(name: Seq<char>, search: Seq<char>)
    ensures
        spec_gallery_shows(name, search) <==> (search.len() == 0 || exists|i: int|
            0 <= i && i + lowercase(search).len() <= lowercase(name).len() && #[trigger] lowercase(name).subrange(
                i,
                i + lowercase(search).len(),
            ) == lowercase(search)),
{
}

/// A search that starts the name (ignoring case) shows the component.
pub proof fn lemma_gallery_search_prefix_shows(name: Seq<char>, search: Seq<char>)
    requires
        lowercase(search).len() <= lowercase(name).len(),
        lowercase(name).take(lowercase(search).len() as int) == lowercase(search),
    ensures
        spec_gallery_shows(name, search),
{
    assert(lowercase(name).subrange(0, 0 + lowercase(search).len() as int) =~= lowercase(name).take(
        lowercase(search).len() as int,
    ));
}

/// The title keeps every character of the name but shows underscores as
/// spaces.
pub proof fn lemma_component_title_replaces_underscores(name: Seq<char>)
    ensures
        spec_component_title(name).len() == name.len(),
        forall|i: int| 0 <= i < name.len() ==> #[trigger] spec_component_title(name)[i] == (if name[i] == '_' {
            ' '
        } else {
            name[i]
        }),
{
}

/// The `iframe` flag is carried by the home and component pages only, and
/// the `dark_mode` flag by every page.
pub proof fn lemma_route_flags(iframe: Option<bool>, dark_mode: Option<bool>, name: String, variant: Option<String>)
    ensures
        (Route::Home { iframe, dark_mode }).spec_iframe() == iframe,
        (Route::Home { iframe, dark_mode }).spec_dark_mode() == dark_mode,
        (Route::ComponentDemo { name, iframe, dark_mode }).spec_iframe() == iframe,
        (Route::ComponentDemo { name, iframe, dark_mode }).spec_dark_mode() == dark_mode,
        (Route::ComponentBlockDemo { name, variant, dark_mode }).spec_iframe() is None,
        (Route::ComponentBlockDemo { name, variant, dark_mode }).spec_dark_mode() == dark_mode,
        (Route::EmailClientDashboard { dark_mode }).spec_iframe() is None,
        (Route::EmailClientDashboard { dark_mode }).spec_dark_mode() == dark_mode,
{
}


/// A run occurs in a text exactly when it appears there at some position,
/// character for character; the empty run and the text itself always
/// occur.
pub proof fn lemma_occurs_in_is_substring(needle: Seq<char>, haystack: Seq<char>)
    ensures
        occurs_in(needle, haystack) <==> exists|i: int|
            0 <= i && i + needle.len() <= haystack.len() && #[trigger] haystack.subrange(i, i + needle.len()) == needle,
        occurs_in(Seq::<char>::empty(), haystack),
        occurs_in(haystack, haystack),
{
    assert(haystack.subrange(0, 0 + Seq::<char>::empty().len() as int) =~= Seq::<char>::empty());
    assert(haystack.subrange(0, 0 + haystack.len() as int) =~= haystack);
}

} // verus!
