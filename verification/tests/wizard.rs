use liblis::metadata::{InstallerScreen, Metadata};
use liblis::packaging::build_metadata;
use liblis::project::Project;
use liblis::wizard::{wizard_screens, AppState, Backward, Forward};

fn screen(id: &str, enabled: bool, order: usize) -> InstallerScreen {
    InstallerScreen { id: id.to_string(), enabled, order, custom_content: None }
}

fn with_screens(screens: Vec<InstallerScreen>) -> Metadata {
    let mut m = build_metadata(&Project::new());
    m.installer_screens = screens;
    m
}

fn ids(screens: &[InstallerScreen]) -> Vec<&str> {
    screens.iter().map(|s| s.id.as_str()).collect()
}

#[test]
fn the_progress_screen_stands_before_the_finish_screen() {
    let m = build_metadata(&Project::new());
    let screens = wizard_screens(&m);
    assert_eq!(ids(&screens), vec!["welcome", "license", "install_location", "progress", "finish"]);
    assert_eq!(screens[3], screen("progress", true, 4));
}

#[test]
fn disabled_screens_are_left_out() {
    let m = with_screens(vec![
        screen("welcome", false, 1),
        screen("license", true, 2),
        screen("install_location", false, 3),
        screen("finish", true, 4),
    ]);
    assert_eq!(ids(&wizard_screens(&m)), vec!["license", "progress", "finish"]);
}

#[test]
fn screens_are_shown_by_ascending_order() {
    let m = with_screens(vec![
        screen("finish", true, 9),
        screen("license", true, 5),
        screen("welcome", true, 1),
        screen("install_location", true, 7),
    ]);
    assert_eq!(
        ids(&wizard_screens(&m)),
        vec!["welcome", "license", "install_location", "progress", "finish"]
    );
}

#[test]
fn screens_of_the_same_order_keep_their_places() {
    let m = with_screens(vec![
        screen("license", true, 2),
        screen("welcome", true, 2),
        screen("install_location", true, 1),
        screen("finish", true, 2),
    ]);
    assert_eq!(
        ids(&wizard_screens(&m)),
        vec!["install_location", "license", "welcome", "progress", "finish"]
    );
}

#[test]
fn the_arrangement_is_that_of_a_stable_sort() {
    let all = ["welcome", "license", "install_location", "finish"];
    let mut seed: u32 = 12345;
    for _round in 0..200 {
        let mut screens = Vec::new();
        for k in 0..7 {
            seed = seed.wrapping_mul(1103515245).wrapping_add(12345);
            let id = all[((seed >> 16) % 3) as usize];
            let enabled = (seed >> 20) % 4 != 0;
            let order = ((seed >> 8) % 4) as usize;
            let mut s = screen(id, enabled, order);
            s.custom_content = Some(k.to_string());
            screens.push(s);
        }
        let mut want: Vec<InstallerScreen> = screens.iter().filter(|s| s.enabled).cloned().collect();
        want.sort_by_key(|s| s.order);
        let last = want.last().map(|s| s.order).unwrap_or(1);
        want.push(screen("progress", true, last));
        assert_eq!(wizard_screens(&with_screens(screens)), want);
    }
}

#[test]
fn a_progress_screen_that_is_there_is_kept() {
    let m = with_screens(vec![
        screen("progress", true, 1),
        screen("welcome", true, 2),
        screen("finish", true, 3),
    ]);
    assert_eq!(ids(&wizard_screens(&m)), vec!["progress", "welcome", "finish"]);
}

#[test]
fn a_disabled_progress_screen_is_replaced() {
    let m = with_screens(vec![
        screen("welcome", true, 1),
        screen("progress", false, 2),
        screen("finish", true, 3),
    ]);
    let screens = wizard_screens(&m);
    assert_eq!(ids(&screens), vec!["welcome", "progress", "finish"]);
    assert_eq!(screens[1], screen("progress", true, 3));
}

#[test]
fn without_a_finish_screen_the_progress_screen_comes_last() {
    let m = with_screens(vec![screen("welcome", true, 1), screen("finish", false, 2)]);
    assert_eq!(wizard_screens(&m), vec![screen("welcome", true, 1), screen("progress", true, 1)]);
    let m = with_screens(vec![
        screen("license", true, 7),
        screen("welcome", true, 3),
        screen("install_location", false, 9),
    ]);
    assert_eq!(
        wizard_screens(&m),
        vec![screen("welcome", true, 3), screen("license", true, 7), screen("progress", true, 7)]
    );
}

#[test]
fn the_progress_screen_is_shown_even_when_nothing_else_is() {
    assert_eq!(wizard_screens(&with_screens(vec![])), vec![screen("progress", true, 1)]);
    let m = with_screens(vec![screen("finish", false, 4), screen("progress", false, 3)]);
    assert_eq!(wizard_screens(&m), vec![screen("progress", true, 1)]);
}

#[test]
fn the_progress_screen_is_shown_whatever_is_enabled() {
    let all = ["welcome", "license", "install_location", "finish"];
    for mask in 0u32..16 {
        let screens: Vec<InstallerScreen> = all
            .iter()
            .enumerate()
            .map(|(i, id)| screen(id, mask & (1 << i) != 0, i + 1))
            .collect();
        let shown = wizard_screens(&with_screens(screens));
        let names = ids(&shown);
        assert_eq!(names.iter().filter(|n| **n == "progress").count(), 1, "mask {}", mask);
        assert!(shown.iter().all(|s| s.enabled));
        assert!(shown.windows(2).all(|w| w[0].order <= w[1].order));
        match names.iter().position(|n| *n == "finish") {
            Some(f) => assert_eq!(names[f - 1], "progress", "mask {}", mask),
            None => assert_eq!(names.last(), Some(&"progress"), "mask {}", mask),
        }
    }
}

#[test]
fn the_progress_screen_stands_before_the_first_finish_screen() {
    let m = with_screens(vec![
        screen("finish", true, 2),
        screen("welcome", true, 1),
        screen("finish", true, 3),
    ]);
    let screens = wizard_screens(&m);
    assert_eq!(ids(&screens), vec!["welcome", "progress", "finish", "finish"]);
    assert_eq!(screens[1].order, 2);
}

#[test]
fn the_installer_starts_on_the_first_screen() {
    let s = AppState::new();
    assert_eq!(s.lis_file, None);
    assert_eq!(s.metadata, None);
    assert_eq!(s.current_screen, 0);
    assert!(!s.install_for_all_users);
    let t = AppState::with_file("/tmp/app.lis");
    assert_eq!(t.lis_file, Some("/tmp/app.lis".to_string()));
    assert_eq!(t.current_screen, 0);
    assert!(!t.install_for_all_users);
}

#[test]
fn only_existing_packages_are_accepted() {
    assert!(AppState::accepts("/tmp/app.lis", true));
    assert!(!AppState::accepts("/tmp/app.lis", false));
    assert!(!AppState::accepts("/tmp/app.tar", true));
    assert!(!AppState::accepts("/tmp/.lis", true));
    assert!(!AppState::accepts("", true));
}

#[test]
fn the_way_forward_ends_by_closing() {
    let mut s = AppState::new();
    assert_eq!(s.go_next(3), Forward::Shown);
    assert_eq!(s.current_screen, 1);
    assert_eq!(s.go_next(3), Forward::ShownLast);
    assert_eq!(s.current_screen, 2);
    assert_eq!(s.go_next(3), Forward::Closed);
    assert_eq!(s.current_screen, 2);
    let mut one = AppState::new();
    assert_eq!(one.go_next(1), Forward::Closed);
    let mut none = AppState::new();
    assert_eq!(none.go_next(0), Forward::Closed);
    assert_eq!(none.current_screen, 0);
    let mut two = AppState::new();
    assert_eq!(two.go_next(2), Forward::ShownLast);
}

#[test]
fn the_way_back_ends_at_the_first_screen() {
    let mut s = AppState::new();
    assert_eq!(s.go_back(), Backward::Stayed);
    s.go_next(5);
    s.go_next(5);
    assert_eq!(s.go_back(), Backward::Shown);
    assert_eq!(s.current_screen, 1);
    assert_eq!(s.go_back(), Backward::ShownFirst);
    assert_eq!(s.current_screen, 0);
    assert_eq!(s.go_back(), Backward::Stayed);
    assert_eq!(s.current_screen, 0);
}

#[test]
fn each_screen_has_its_content() {
    let mut p = Project::new();
    p.metadata.application_name = "Foo App".to_string();
    p.metadata.version = "2.0".to_string();
    p.metadata.author = "Me".to_string();
    let m = build_metadata(&p);
    let content = |id: &str| {
        let c = liblis::wizard::screen_content(id, &m);
        (c.icon, c.title, c.description)
    };
    let s = |a: &str, b: &str, c: &str| (a.to_string(), b.to_string(), c.to_string());
    assert_eq!(
        content("welcome"),
        s(
            "emblem-ok-symbolic",
            "Welcome to Foo App Setup",
            "This wizard will guide you through the installation of Foo App.\n\nVersion: 2.0\nAuthor: Me"
        )
    );
    assert_eq!(
        content("license"),
        s(
            "text-x-generic-symbolic",
            "License Agreement",
            "Please read the following license agreement carefully."
        )
    );
    assert_eq!(
        content("install_location"),
        s("folder-symbolic", "Installation User", "Choose where to install the application.")
    );
    assert_eq!(
        content("progress"),
        s("emblem-synchronizing-symbolic", "Installing", "Installing Foo App...")
    );
    assert_eq!(
        content("finish"),
        s(
            "emblem-default-symbolic",
            "Installation Complete",
            "Foo App has been successfully installed on your system."
        )
    );
    assert_eq!(content("components"), s("", "Unknown screen: components", ""));
    assert_eq!(content(""), s("", "Unknown screen: ", ""));
}

fn sample_package() -> Metadata {
    Metadata {
        package: liblis::metadata::PackageInfo {
            name: "TestApp".to_string(),
            version: "1.0.0".to_string(),
            app_id: "com.example.testapp".to_string(),
            description: "A test application".to_string(),
            author: "Test Author".to_string(),
            application_name: "Test Application".to_string(),
            package_name: "testapp.lis".to_string(),
            compression_level: 9,
        },
        installation: liblis::metadata::InstallationInfo {
            prefix_system: "/usr/local".to_string(),
            prefix_user: "~/.local".to_string(),
        },
        desktop: liblis::metadata::DesktopInfo {
            name: "Test Application".to_string(),
            executable: "testapp".to_string(),
            icon: String::new(),
            categories: vec!["Utility".to_string()],
        },
        dependencies: liblis::metadata::DependenciesInfo { bundled: vec![] },
        files: vec![],
        installer_screens: vec![
            screen("welcome", true, 1),
            screen("license", true, 2),
            screen("install_location", true, 3),
            screen("finish", true, 4),
        ],
    }
}

#[test]
fn a_sample_package_is_led_through_five_screens() {
    let m = sample_package();
    assert!(m.is_well_formed());
    assert!(m.is_ready_for_build());
    let screens = wizard_screens(&m);
    assert_eq!(ids(&screens), vec!["welcome", "license", "install_location", "progress", "finish"]);
    let mut state = AppState::with_file("/tmp/testapp.lis");
    state.metadata = Some(m.clone());
    let mut shown = vec![liblis::wizard::screen_content(&screens[state.current_screen].id, &m).title];
    loop {
        match state.go_next(screens.len()) {
            Forward::Closed => break,
            _ => shown.push(liblis::wizard::screen_content(&screens[state.current_screen].id, &m).title),
        }
    }
    assert_eq!(
        shown,
        vec![
            "Welcome to Test Application Setup",
            "License Agreement",
            "Installation User",
            "Installing",
            "Installation Complete",
        ]
    );
}
