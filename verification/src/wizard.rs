//! The screens that the installer leads through, and the way through them.

use crate::metadata::{InstallerScreen, Metadata, MetadataView, ScreenView};
use crate::paths::{is_package_path, names_package};
use crate::project::find_screen;
use crate::text::{append_str, lemma_views_push, opt_view, views};
use vstd::prelude::*;

verus! {

/// The screens among `s[..n]` that are enabled, in their order in `s`.
pub open spec fn shown(s: Seq<ScreenView>, n: int) -> Seq<ScreenView>
    decreases n,
{
    if n <= 0 || n > s.len() {
        Seq::empty()
    } else if s[n - 1].enabled {
        shown(s, n - 1).push(s[n - 1])
    } else {
        shown(s, n - 1)
    }
}

/// The first position at or after `from` of a screen that comes later than
/// `order`, or the number of screens when there is none.
pub open spec fn first_later(s: Seq<ScreenView>, order: usize, from: int) -> int
    decreases s.len() - from,
{
    if 0 <= from < s.len() && s[from].order <= order {
        first_later(s, order, from + 1)
    } else {
        from
    }
}

/// `s` with `x` put behind the screens that do not come later than `x`.
pub open spec fn placed(s: Seq<ScreenView>, x: ScreenView) -> Seq<ScreenView> {
    s.insert(first_later(s, x.order, 0), x)
}

/// The screens `s[..n]` by ascending order; screens of the same order keep
/// the order they have in `s`.
pub open spec fn arranged(s: Seq<ScreenView>, n: int) -> Seq<ScreenView>
    decreases n,
{
    if n <= 0 || n > s.len() {
        Seq::empty()
    } else {
        placed(arranged(s, n - 1), s[n - 1])
    }
}

/// Whether the screens are in ascending order.
pub open spec fn ascending(s: Seq<ScreenView>) -> bool {
    forall|i: int, j: int| 0 <= i < j < s.len() ==> s[i].order <= s[j].order
}

/// The progress screen, at the given position among the screens.
pub open spec fn progress_screen(order: usize) -> ScreenView {
    ScreenView { id: "progress"@, enabled: true, order, custom_content: None }
}

/// The position that an added progress screen takes: that of the screen
/// before which it is put, which is the first finish screen, or that of the
/// last screen where it is put behind all of them, or the first position
/// where there is no other screen.
pub open spec fn progress_order(s: Seq<ScreenView>) -> usize {
    let f = find_screen(s, "finish"@, 0);
    if 0 <= f < s.len() {
        s[f].order
    } else if s.len() > 0 {
        s.last().order
    } else {
        1
    }
}

/// `s` with the progress screen in it. Screens that have a progress screen
/// stay as they are. To any others it is added: before the first finish
/// screen, or behind all screens where there is no finish screen.
pub open spec fn with_progress(s: Seq<ScreenView>) -> Seq<ScreenView> {
    let f = find_screen(s, "finish"@, 0);
    if 0 <= find_screen(s, "progress"@, 0) < s.len() || f < 0 || f > s.len() {
        s
    } else {
        s.insert(f, progress_screen(progress_order(s)))
    }
}

/// The screens that the installer leads through for a package: those that
/// the package enables, by ascending order, and the progress screen, which
/// is shown whatever the package enables.
pub open spec fn wizard_screens_of(m: MetadataView) -> Seq<ScreenView> {
    let enabled = shown(m.installer_screens, m.installer_screens.len() as int);
    with_progress(arranged(enabled, enabled.len() as int))
}

/// Where the search for a later screen ends: within the screens, behind
/// screens that are not later, and at a screen that is.
pub proof fn lemma_first_later_bounds(s: Seq<ScreenView>, order: usize, from: int)
    requires
        0 <= from <= s.len(),
    ensures
        from <= first_later(s, order, from) <= s.len(),
        forall|i: int| from <= i < first_later(s, order, from) ==> (#[trigger] s[i]).order <= order,
        first_later(s, order, from) < s.len() ==> s[first_later(s, order, from)].order > order,
    decreases s.len() - from,
{
    if from < s.len() && s[from].order <= order {
        lemma_first_later_bounds(s, order, from + 1);
    }
}

/// Putting a screen into screens in ascending order leaves them in
/// ascending order, and adds that screen and no other.
pub proof fn lemma_placed_keeps_order(s: Seq<ScreenView>, x: ScreenView)
    requires
        ascending(s),
    ensures
        ascending(placed(s, x)),
        placed(s, x).len() == s.len() + 1,
        placed(s, x).to_multiset() == s.to_multiset().insert(x),
{
    lemma_first_later_bounds(s, x.order, 0);
    let k = first_later(s, x.order, 0);
    let t = placed(s, x);
    assert forall|i: int, j: int| 0 <= i < j < t.len() implies t[i].order <= t[j].order by {
        if j < k {
            assert(t[i] == s[i] && t[j] == s[j]);
        } else if j == k {
            assert(t[i] == s[i]);
        } else if i < k {
            assert(t[i] == s[i] && t[j] == s[j - 1]);
            assert(s[i].order <= x.order);
            if k < s.len() {
                assert(s[k].order <= s[j - 1].order || k == j - 1);
            }
        } else if i == k {
            assert(t[j] == s[j - 1]);
            if k < j - 1 {
                assert(s[k].order <= s[j - 1].order);
            }
        } else {
            assert(t[i] == s[i - 1] && t[j] == s[j - 1]);
        }
    }
    assert(t.remove(k) =~= s);
    vstd::seq_lib::to_multiset_remove(t, k);
    t.to_multiset_ensures();
    assert(t.to_multiset().count(x) > 0) by {
        assert(t[k] == x);
        assert(t.contains(x));
    }
    assert(t.to_multiset() =~= s.to_multiset().insert(x));
}

/// Arranging screens puts them in ascending order and neither adds nor
/// drops one.
pub proof fn lemma_arranged_is_sorted(s: Seq<ScreenView>, n: int)
    requires
        0 <= n <= s.len(),
    ensures
        ascending(arranged(s, n)),
        arranged(s, n).len() == n,
        arranged(s, n).to_multiset() == s.take(n).to_multiset(),
    decreases n,
{
    if n == 0 {
        assert(s.take(0) =~= Seq::empty());
        assert(arranged(s, 0).to_multiset() =~= s.take(0).to_multiset());
    } else {
        lemma_arranged_is_sorted(s, n - 1);
        lemma_placed_keeps_order(arranged(s, n - 1), s[n - 1]);
        assert(s.take(n) =~= s.take(n - 1).push(s[n - 1]));
        vstd::seq_lib::to_multiset_build(s.take(n - 1), s[n - 1]);
    }
}

/// Every screen among the shown ones is enabled, and is one of the screens
/// they were taken from.
pub proof fn lemma_shown_are_enabled(s: Seq<ScreenView>, n: int)
    requires
        0 <= n <= s.len(),
    ensures
        forall|i: int| 0 <= i < shown(s, n).len() ==> (#[trigger] shown(s, n)[i]).enabled,
        forall|i: int| 0 <= i < shown(s, n).len() ==> s.contains(#[trigger] shown(s, n)[i]),
    decreases n,
{
    if n > 0 {
        lemma_shown_are_enabled(s, n - 1);
        let before = shown(s, n - 1);
        let all = shown(s, n);
        assert forall|i: int| 0 <= i < all.len() implies (#[trigger] all[i]).enabled
            && s.contains(all[i]) by {
            if i < before.len() {
                assert(all[i] == before[i]);
            } else {
                assert(all[i] == s[n - 1]);
            }
        }
    }
}

/// The installer leads through enabled screens only, apart from the
/// progress screen that it adds, and leads through them by ascending order.
pub proof fn lemma_wizard_shows_enabled_screens_in_order(m: MetadataView)
    ensures
        ascending(wizard_screens_of(m)),
        forall|i: int|
            0 <= i < wizard_screens_of(m).len() ==> (#[trigger] wizard_screens_of(m)[i]).enabled,
{
    let all = m.installer_screens;
    let enabled = shown(all, all.len() as int);
    let sorted = arranged(enabled, enabled.len() as int);
    let result = with_progress(sorted);
    lemma_shown_are_enabled(all, all.len() as int);
    lemma_arranged_is_sorted(enabled, enabled.len() as int);
    assert(enabled.take(enabled.len() as int) =~= enabled);
    assert forall|i: int| 0 <= i < sorted.len() implies (#[trigger] sorted[i]).enabled by {
        sorted.to_multiset_ensures();
        enabled.to_multiset_ensures();
        assert(sorted.contains(sorted[i]));
        assert(sorted.to_multiset().count(sorted[i]) > 0);
        assert(enabled.to_multiset().count(sorted[i]) > 0);
        assert(enabled.contains(sorted[i]));
        let k = choose|k: int| 0 <= k < enabled.len() && enabled[k] == sorted[i];
        assert(enabled[k].enabled);
    }
    let f = find_screen(sorted, "finish"@, 0);
    lemma_find_screen_bounds(sorted, "finish"@, 0);
    lemma_find_screen_bounds(sorted, "progress"@, 0);
    if find_screen(sorted, "progress"@, 0) >= sorted.len() {
        let p = progress_screen(progress_order(sorted));
        assert(result == sorted.insert(f, p));
        assert forall|i: int, j: int| 0 <= i < j < result.len() implies result[i].order
            <= result[j].order by {
            if j < f {
                assert(result[i] == sorted[i] && result[j] == sorted[j]);
            } else if j == f {
                assert(result[i] == sorted[i]);
                assert(result[j] == p);
                if f == sorted.len() {
                    assert(sorted[i].order <= sorted.last().order);
                }
            } else if i < f {
                assert(result[i] == sorted[i] && result[j] == sorted[j - 1]);
            } else if i == f {
                assert(result[j] == sorted[j - 1]);
                assert(result[i] == p);
            } else {
                assert(result[i] == sorted[i - 1] && result[j] == sorted[j - 1]);
            }
        }
        assert forall|i: int| 0 <= i < result.len() implies (#[trigger] result[i]).enabled by {
            if i < f {
                assert(result[i] == sorted[i]);
            } else if i == f {
                assert(result[i] == p);
            } else {
                assert(result[i] == sorted[i - 1]);
            }
        }
    }
}

/// The installer shows the progress screen whatever screens it is given:
/// the screens with the progress screen in them have one.
pub proof fn lemma_progress_is_always_shown(s: Seq<ScreenView>)
    ensures
        0 <= find_screen(with_progress(s), "progress"@, 0) < with_progress(s).len(),
{
    let r = with_progress(s);
    let f = find_screen(s, "finish"@, 0);
    lemma_find_screen_bounds(s, "finish"@, 0);
    lemma_find_screen_bounds(s, "progress"@, 0);
    lemma_find_screen_bounds(r, "progress"@, 0);
    if find_screen(s, "progress"@, 0) >= s.len() {
        assert(r[f].id == "progress"@);
    }
}

/// The installer of a package shows the progress screen, whatever screens
/// the package enables.
pub proof fn lemma_wizard_always_shows_progress(m: MetadataView)
    ensures
        0 <= find_screen(wizard_screens_of(m), "progress"@, 0) < wizard_screens_of(m).len(),
{
    let enabled = shown(m.installer_screens, m.installer_screens.len() as int);
    lemma_progress_is_always_shown(arranged(enabled, enabled.len() as int));
}

/// Where the progress screen stands. Screens that have one are shown as
/// they are. To screens that have none, one is added and no more: right
/// before the first finish screen where there is one, behind all screens
/// where there is none.
pub proof fn lemma_progress_precedes_finish(s: Seq<ScreenView>)
    ensures
        find_screen(s, "progress"@, 0) < s.len() ==> with_progress(s) == s,
        find_screen(s, "progress"@, 0) >= s.len() ==> {
            let f = find_screen(s, "finish"@, 0);
            &&& 0 <= f <= s.len()
            &&& with_progress(s).len() == s.len() + 1
            &&& with_progress(s)[f] == progress_screen(progress_order(s))
            &&& forall|i: int|
                0 <= i < with_progress(s).len() && i != f ==> (#[trigger] with_progress(s)[i]).id
                    != "progress"@
            &&& forall|i: int| 0 <= i < f ==> with_progress(s)[i] == s[i]
            &&& forall|i: int| f <= i < s.len() ==> with_progress(s)[i + 1] == s[i]
        },
        find_screen(s, "progress"@, 0) >= s.len() && find_screen(s, "finish"@, 0) < s.len() ==> {
            let f = find_screen(s, "finish"@, 0);
            &&& with_progress(s)[f + 1] == s[f]
            &&& with_progress(s)[f + 1].id == "finish"@
            &&& with_progress(s)[f].order == s[f].order
        },
        find_screen(s, "progress"@, 0) >= s.len() && find_screen(s, "finish"@, 0) >= s.len() ==> {
            &&& with_progress(s).last() == progress_screen(progress_order(s))
            &&& forall|i: int| 0 <= i < s.len() ==> (#[trigger] with_progress(s)[i]).id != "finish"@
        },
{
    let f = find_screen(s, "finish"@, 0);
    let r = with_progress(s);
    lemma_find_screen_bounds(s, "finish"@, 0);
    lemma_find_screen_bounds(s, "progress"@, 0);
    if find_screen(s, "progress"@, 0) >= s.len() {
        assert forall|i: int| 0 <= i < r.len() && i != f implies (#[trigger] r[i]).id
            != "progress"@ by {
            if i < f {
                assert(r[i] == s[i]);
            } else {
                assert(r[i] == s[i - 1]);
            }
        }
        if f >= s.len() {
            assert forall|i: int| 0 <= i < s.len() implies (#[trigger] r[i]).id != "finish"@ by {
                assert(r[i] == s[i]);
            }
        }
    }
}

/// Where the search for a screen ends: within the screens, behind screens
/// of other names, and at a screen of the name if there is one.
pub proof fn lemma_find_screen_bounds(s: Seq<ScreenView>, id: Seq<char>, from: int)
    requires
        0 <= from <= s.len(),
    ensures
        from <= find_screen(s, id, from) <= s.len(),
        forall|i: int| from <= i < find_screen(s, id, from) ==> (#[trigger] s[i]).id != id,
        find_screen(s, id, from) < s.len() ==> s[find_screen(s, id, from)].id == id,
    decreases s.len() - from,
{
    if from < s.len() && s[from].id != id {
        lemma_find_screen_bounds(s, id, from + 1);
    }
}

fn position_of(screens: &Vec<InstallerScreen>, id: &str) -> (k: usize)
    ensures
        k == find_screen(views(screens@), id@, 0),
        k <= screens.len(),
{
    let mut k: usize = 0;
    while k < screens.len() && !screens[k].id.as_str().eq(id)
        invariant
            k <= screens.len(),
            find_screen(views(screens@), id@, 0) == find_screen(views(screens@), id@, k as int),
        decreases screens.len() - k,
    {
        k = k + 1;
    }
    k
}

fn place(sorted: &mut Vec<InstallerScreen>, x: InstallerScreen)
    ensures
        views(final(sorted)@) == placed(views(old(sorted)@), x@),
{
    let mut k: usize = 0;
    while k < sorted.len() && sorted[k].order <= x.order
        invariant
            k <= sorted.len(),
            *sorted == *old(sorted),
            first_later(views(sorted@), x@.order, 0) == first_later(
                views(sorted@),
                x@.order,
                k as int,
            ),
        decreases sorted.len() - k,
    {
        k = k + 1;
    }
    sorted.insert(k, x);
    assert(views(sorted@) =~= views(old(sorted)@).insert(k as int, x@));
}

/// The screens that the installer leads through for a package.
pub fn wizard_screens(metadata: &Metadata) -> (r: Vec<InstallerScreen>)
    ensures
        views(r@) == wizard_screens_of(metadata@),
{
    let all = &metadata.installer_screens;
    let mut enabled: Vec<InstallerScreen> = Vec::new();
    let mut i: usize = 0;
    assert(views(enabled@) =~= shown(views(all@), 0));
    while i < all.len()
        invariant
            i <= all.len(),
            views(enabled@) == shown(views(all@), i as int),
        decreases all.len() - i,
    {
        if all[i].enabled {
            let copy = all[i].duplicate();
            proof {
                lemma_views_push(enabled@, copy);
            }
            enabled.push(copy);
        }
        i = i + 1;
    }
    let mut sorted: Vec<InstallerScreen> = Vec::new();
    let mut j: usize = 0;
    assert(views(sorted@) =~= arranged(views(enabled@), 0));
    while j < enabled.len()
        invariant
            j <= enabled.len(),
            views(sorted@) == arranged(views(enabled@), j as int),
        decreases enabled.len() - j,
    {
        place(&mut sorted, enabled[j].duplicate());
        j = j + 1;
    }
    let p = position_of(&sorted, "progress");
    let f = position_of(&sorted, "finish");
    if p == sorted.len() {
        let order: usize = if f < sorted.len() {
            sorted[f].order
        } else if sorted.len() > 0 {
            sorted[sorted.len() - 1].order
        } else {
            1
        };
        let progress = InstallerScreen {
            id: "progress".to_owned(),
            enabled: true,
            order,
            custom_content: None,
        };
        let ghost before = views(sorted@);
        sorted.insert(f, progress);
        assert(views(sorted@) =~= before.insert(f as int, progress_screen(progress_order(before))));
    }
    sorted
}

/// What the installer holds while it leads through its screens.
#[derive(Clone, Debug, PartialEq, Eq)]
pub struct AppState {
    /// The package that is being installed.
    pub lis_file: Option<String>,
    /// Its metadata document, once read.
    pub metadata: Option<Metadata>,
    /// Position of the screen that is shown.
    pub current_screen: usize,
    /// Whether the package is installed for all users rather than for the
    /// one who installs it.
    pub install_for_all_users: bool,
}

/// What happened when the user asked for the next screen.
#[derive(Clone, Copy, Debug, PartialEq, Eq, Structural)]
pub enum Forward {
    /// The next screen is shown, and further screens follow it.
    Shown,
    /// The next screen is shown, and it is the last.
    ShownLast,
    /// There is no next screen: the installer closes.
    Closed,
}

/// What happened when the user asked for the previous screen.
#[derive(Clone, Copy, Debug, PartialEq, Eq, Structural)]
pub enum Backward {
    /// The previous screen is shown, and screens come before it.
    Shown,
    /// The previous screen is shown, and it is the first.
    ShownFirst,
    /// There is no previous screen.
    Stayed,
}

/// Whether a path handed to the installer is taken as the package to
/// install: it must exist and be named like a package.
pub open spec fn accepts_of(path: Seq<char>, exists: bool) -> bool {
    exists && names_package(path)
}

impl AppState {
    /// The state in which the installer starts: no package yet, the first
    /// screen, an installation for the one who installs.
    pub fn new() -> (r: AppState)
        ensures
            r.lis_file is None,
            r.metadata is None,
            r.current_screen == 0,
            !r.install_for_all_users,
    {
        AppState {
            lis_file: None,
            metadata: None,
            current_screen: 0,
            install_for_all_users: false,
        }
    }

    /// The state in which the installer starts on the package at `path`.
    pub fn with_file(path: &str) -> (r: AppState)
        ensures
            opt_view(r.lis_file) == Some(path@),
            r.metadata is None,
            r.current_screen == 0,
            !r.install_for_all_users,
    {
        AppState {
            lis_file: Some(path.to_owned()),
            metadata: None,
            current_screen: 0,
            install_for_all_users: false,
        }
    }

    /// Whether a path handed to the installer is taken as the package to
    /// install. `exists` says whether there is something at the path.
    pub fn accepts(path: &str, exists: bool) -> (r: bool)
        ensures
            r == accepts_of(path@, exists),
    {
        exists && is_package_path(path)
    }

    /// Goes to the next of `count` screens, if there is one.
    pub fn go_next(&mut self, count: usize) -> (r: Forward)
        ensures
            final(self).lis_file == old(self).lis_file,
            final(self).metadata == old(self).metadata,
            final(self).install_for_all_users == old(self).install_for_all_users,
            old(self).current_screen + 1 < count ==> {
                &&& final(self).current_screen == old(self).current_screen + 1
                &&& r == if old(self).current_screen + 2 == count {
                    Forward::ShownLast
                } else {
                    Forward::Shown
                }
            },
            old(self).current_screen + 1 >= count ==> {
                &&& final(self).current_screen == old(self).current_screen
                &&& r == Forward::Closed
            },
    {
        if count >= 1 && self.current_screen < count - 1 {
            self.current_screen = self.current_screen + 1;
            if self.current_screen == count - 1 {
                Forward::ShownLast
            } else {
                Forward::Shown
            }
        } else {
            Forward::Closed
        }
    }

    /// Goes to the previous screen, if there is one.
    pub fn go_back(&mut self) -> (r: Backward)
        ensures
            final(self).lis_file == old(self).lis_file,
            final(self).metadata == old(self).metadata,
            final(self).install_for_all_users == old(self).install_for_all_users,
            old(self).current_screen > 0 ==> {
                &&& final(self).current_screen == old(self).current_screen - 1
                &&& r == if old(self).current_screen == 1 {
                    Backward::ShownFirst
                } else {
                    Backward::Shown
                }
            },
            old(self).current_screen == 0 ==> {
                &&& final(self).current_screen == 0
                &&& r == Backward::Stayed
            },
    {
        if self.current_screen > 0 {
            self.current_screen = self.current_screen - 1;
            if self.current_screen == 0 {
                Backward::ShownFirst
            } else {
                Backward::Shown
            }
        } else {
            Backward::Stayed
        }
    }
}

/// What a screen of the installer shows.
#[derive(Clone, Debug, PartialEq, Eq)]
pub struct ScreenContent {
    /// Name of the icon.
    pub icon: String,
    pub title: String,
    pub description: String,
}

/// The view of `ScreenContent`: what it holds, as the contracts speak of it.
pub struct ScreenContentView {
    pub icon: Seq<char>,
    pub title: Seq<char>,
    pub description: Seq<char>,
}

impl View for ScreenContent {
    type V = ScreenContentView;

    open spec fn view(&self) -> ScreenContentView {
        ScreenContentView {
            icon: self.icon@,
            title: self.title@,
            description: self.description@,
        }
    }
}

/// What the screen called `id` shows when the package `m` is installed. A
/// screen of a name outside the vocabulary says so in its title.
pub open spec fn screen_content_of(id: Seq<char>, m: MetadataView) -> ScreenContentView {
    let app = m.package.application_name;
    if id == "welcome"@ {
        ScreenContentView {
            icon: "emblem-ok-symbolic"@,
            title: "Welcome to "@ + app + " Setup"@,
            description: "This wizard will guide you through the installation of "@ + app
                + ".\n\nVersion: "@ + m.package.version + "\nAuthor: "@ + m.package.author,
        }
    } else if id == "license"@ {
        ScreenContentView {
            icon: "text-x-generic-symbolic"@,
            title: "License Agreement"@,
            description: "Please read the following license agreement carefully."@,
        }
    } else if id == "install_location"@ {
        ScreenContentView {
            icon: "folder-symbolic"@,
            title: "Installation User"@,
            description: "Choose where to install the application."@,
        }
    } else if id == "progress"@ {
        ScreenContentView {
            icon: "emblem-synchronizing-symbolic"@,
            title: "Installing"@,
            description: "Installing "@ + app + "..."@,
        }
    } else if id == "finish"@ {
        ScreenContentView {
            icon: "emblem-default-symbolic"@,
            title: "Installation Complete"@,
            description: app + " has been successfully installed on your system."@,
        }
    } else {
        ScreenContentView {
            icon: Seq::empty(),
            title: "Unknown screen: "@ + id,
            description: Seq::empty(),
        }
    }
}

/// What the screen called `id` shows when the package `metadata` is
/// installed.
pub fn screen_content(id: &str, metadata: &Metadata) -> (r: ScreenContent)
    ensures
        r@ == screen_content_of(id@, metadata@),
{
    let app = metadata.package.application_name.as_str();
    if id.eq("welcome") {
        let title = append_str(append_str("Welcome to ", app).as_str(), " Setup");
        let a = append_str("This wizard will guide you through the installation of ", app);
        let b = append_str(a.as_str(), ".\n\nVersion: ");
        let c = append_str(b.as_str(), metadata.package.version.as_str());
        let d = append_str(c.as_str(), "\nAuthor: ");
        let description = append_str(d.as_str(), metadata.package.author.as_str());
        ScreenContent { icon: "emblem-ok-symbolic".to_owned(), title, description }
    } else if id.eq("license") {
        ScreenContent {
            icon: "text-x-generic-symbolic".to_owned(),
            title: "License Agreement".to_owned(),
            description: "Please read the following license agreement carefully.".to_owned(),
        }
    } else if id.eq("install_location") {
        ScreenContent {
            icon: "folder-symbolic".to_owned(),
            title: "Installation User".to_owned(),
            description: "Choose where to install the application.".to_owned(),
        }
    } else if id.eq("progress") {
        let description = append_str(append_str("Installing ", app).as_str(), "...");
        ScreenContent {
            icon: "emblem-synchronizing-symbolic".to_owned(),
            title: "Installing".to_owned(),
            description,
        }
    } else if id.eq("finish") {
        ScreenContent {
            icon: "emblem-default-symbolic".to_owned(),
            title: "Installation Complete".to_owned(),
            description: append_str(app, " has been successfully installed on your system."),
        }
    } else {
        ScreenContent {
            icon: String::new(),
            title: append_str("Unknown screen: ", id),
            description: String::new(),
        }
    }
}

} // verus!
