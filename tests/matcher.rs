use update_server::platform::{
    AssetMatch, LinuxRule, MacOSRule, MatchError, MatchRule, Platform, PlatformMatcher, RuleKind,
    WindowsMsiRule,
};

fn platform(target: &str, arch: &str) -> Platform {
    Platform {
        target: target.to_string(),
        arch: arch.to_string(),
    }
}

fn names(list: &[&str]) -> Vec<String> {
    list.iter().map(|s| s.to_string()).collect()
}

#[test]
fn test_windows_msi_matching() {
    let matcher = PlatformMatcher::new();
    let platform = Platform {
        target: "windows".to_string(),
        arch: "x86_64".to_string(),
    };

    let assets = vec![
        "FAS2.Lumina_2.0.11_x64_de-DE.msi".to_string(),
        "FAS2.Lumina_2.0.11_x64_de-DE.msi.sig".to_string(),
        "FAS2.Lumina_2.0.11_x64-setup.exe".to_string(),
        "FAS2.Lumina_2.0.11_x64-setup.exe.sig".to_string(),
    ];

    let result = matcher
        .find_matching_asset(&platform, &assets, Some("fas2"))
        .unwrap();
    assert_eq!(result.filename, "FAS2.Lumina_2.0.11_x64_de-DE.msi");
    assert_eq!(
        result.signature_filename,
        Some("FAS2.Lumina_2.0.11_x64_de-DE.msi.sig".to_string())
    );
}

#[test]
fn test_stable_feature_matching() {
    let matcher = PlatformMatcher::new();
    let platform = Platform {
        target: "windows".to_string(),
        arch: "x86_64".to_string(),
    };

    let assets = vec![
        "KWALIS.-.Naturland_1.2.0_x64_en-US.msi".to_string(),
        "KWALIS.-.Naturland_1.2.0_x64_en-US.msi.sig".to_string(),
    ];

    let result = matcher
        .find_matching_asset(&platform, &assets, Some("stable"))
        .unwrap();
    assert_eq!(result.filename, "KWALIS.-.Naturland_1.2.0_x64_en-US.msi");
}

#[test]
fn test_macos_matching() {
    let matcher = PlatformMatcher::new();
    let platform = Platform {
        target: "darwin".to_string(),
        arch: "aarch64".to_string(),
    };

    let assets = vec![
        "KWALIS.-.Naturland_1.2.0_aarch64.app.tar.gz".to_string(),
        "KWALIS.-.Naturland_1.2.0_aarch64.app.tar.gz.sig".to_string(),
        "KWALIS.-.Naturland_1.2.0_x64.app.tar.gz".to_string(),
    ];

    let result = matcher
        .find_matching_asset(&platform, &assets, None)
        .unwrap();
    assert_eq!(
        result.filename,
        "KWALIS.-.Naturland_1.2.0_aarch64.app.tar.gz"
    );
}

#[test]
fn test_linux_matching() {
    let matcher = PlatformMatcher::new();
    let platform = Platform {
        target: "linux".to_string(),
        arch: "x86_64".to_string(),
    };

    let assets = vec![
        "KWALIS.-.Naturland_1.2.0_amd64.AppImage".to_string(),
        "KWALIS.-.Naturland_1.2.0_amd64.AppImage.sig".to_string(),
    ];

    let result = matcher
        .find_matching_asset(&platform, &assets, None)
        .unwrap();
    assert_eq!(result.filename, "KWALIS.-.Naturland_1.2.0_amd64.AppImage");
}

#[test]
fn test_no_matching_asset() {
    let matcher = PlatformMatcher::new();
    let platform = Platform {
        target: "windows".to_string(),
        arch: "x86_64".to_string(),
    };

    let assets = vec!["KWALIS.-.Naturland_1.2.0_aarch64.app.tar.gz".to_string()];

    assert!(matcher
        .find_matching_asset(&platform, &assets, None)
        .is_err());
}

#[test]
fn test_feature_mismatch() {
    let matcher = PlatformMatcher::new();
    let platform = Platform {
        target: "windows".to_string(),
        arch: "x86_64".to_string(),
    };

    let assets = vec![
        "FAS1.Lumina_2.0.11_x64_de-DE.msi".to_string(),
        "FAS1.Lumina_2.0.11_x64_de-DE.msi.sig".to_string(),
    ];

    assert!(matcher
        .find_matching_asset(&platform, &assets, Some("fas2"))
        .is_err());
}

#[test]
fn repeated_selection_gives_the_same_result() {
    let matcher = PlatformMatcher::new();
    let p = platform("windows", "x86_64");
    let assets = names(&["X_x64_de-DE.msi", "X_x64_de-DE.msi.sig", "X_x64-setup.exe"]);
    let a = matcher.find_matching_asset(&p, &assets, None).unwrap();
    let b = matcher.find_matching_asset(&p, &assets, None).unwrap();
    assert_eq!(a, b);
    let p = platform("linux", "aarch64");
    assert!(matcher.find_matching_asset(&p, &assets, None).is_err());
    assert!(matcher.find_matching_asset(&p, &assets, None).is_err());
}

#[test]
fn windows_prefers_msi_over_exe_with_its_signature() {
    let matcher = PlatformMatcher::new();
    let p = platform("windows", "x86_64");
    let assets = names(&[
        "FAS2.X_x64-setup.exe",
        "FAS2.X_x64_de-DE.msi",
        "FAS2.X_x64_de-DE.msi.sig",
    ]);
    let m = matcher.find_matching_asset(&p, &assets, Some("fas2")).unwrap();
    assert_eq!(
        m,
        AssetMatch {
            filename: "FAS2.X_x64_de-DE.msi".to_string(),
            signature_filename: Some("FAS2.X_x64_de-DE.msi.sig".to_string()),
        }
    );
}

#[test]
fn stable_feature_in_any_case_has_no_prefix() {
    let matcher = PlatformMatcher::new();
    let p = platform("windows", "x86_64");
    let assets = names(&["Naturland_1.2.0_x64_en-US.msi", "Naturland_1.2.0_x64_en-US.msi.sig"]);
    let m = matcher.find_matching_asset(&p, &assets, Some("StAbLe")).unwrap();
    assert_eq!(m.filename, "Naturland_1.2.0_x64_en-US.msi");
    assert_eq!(
        m.signature_filename,
        Some("Naturland_1.2.0_x64_en-US.msi.sig".to_string())
    );
}

#[test]
fn empty_feature_has_no_prefix() {
    let matcher = PlatformMatcher::new();
    let p = platform("windows", "x86_64");
    let assets = names(&["Naturland_1.2.0_x64_en-US.msi"]);
    let m = matcher.find_matching_asset(&p, &assets, Some("")).unwrap();
    assert_eq!(m.filename, "Naturland_1.2.0_x64_en-US.msi");
    assert_eq!(m.signature_filename, None);
}

#[test]
fn feature_prefix_is_upper_cased_tag_and_dot() {
    let matcher = PlatformMatcher::new();
    let p = platform("windows", "x86_64");
    let assets = names(&["fas2.X_x64.msi", "FAS2X_x64.msi", "FAS2.Y_x64.msi"]);
    let m = matcher.find_matching_asset(&p, &assets, Some("Fas2")).unwrap();
    assert_eq!(m.filename, "FAS2.Y_x64.msi");
}

#[test]
fn macos_aarch64_picks_the_aarch64_bundle() {
    let matcher = PlatformMatcher::new();
    let p = platform("darwin", "aarch64");
    let assets = names(&[
        "N_1.2.0_x64.app.tar.gz",
        "N_1.2.0_x64.app.tar.gz.sig",
        "N_1.2.0_aarch64.app.tar.gz",
        "N_1.2.0_aarch64.app.tar.gz.sig",
    ]);
    let m = matcher.find_matching_asset(&p, &assets, None).unwrap();
    assert_eq!(m.filename, "N_1.2.0_aarch64.app.tar.gz");
    assert_eq!(
        m.signature_filename,
        Some("N_1.2.0_aarch64.app.tar.gz.sig".to_string())
    );
}

#[test]
fn macos_x86_64_accepts_dmg() {
    let matcher = PlatformMatcher::new();
    let p = platform("darwin", "x86_64");
    let assets = names(&["N_aarch64.dmg", "N_X64.DMG"]);
    let m = matcher.find_matching_asset(&p, &assets, None).unwrap();
    assert_eq!(m.filename, "N_X64.DMG");
}

#[test]
fn linux_picks_appimage_and_signature() {
    let matcher = PlatformMatcher::new();
    let p = platform("linux", "x86_64");
    let assets = names(&[
        "N_1.2.0_amd64.deb",
        "N_1.2.0_amd64.AppImage",
        "N_1.2.0_amd64.AppImage.sig",
    ]);
    let m = matcher.find_matching_asset(&p, &assets, None).unwrap();
    assert_eq!(m.filename, "N_1.2.0_amd64.AppImage");
    assert_eq!(
        m.signature_filename,
        Some("N_1.2.0_amd64.AppImage.sig".to_string())
    );
}

#[test]
fn linux_only_for_x86_64() {
    let matcher = PlatformMatcher::new();
    let p = platform("linux", "aarch64");
    let assets = names(&["N_amd64.AppImage"]);
    assert!(matcher.find_matching_asset(&p, &assets, None).is_err());
}

#[test]
fn windows_i686_and_x86_use_x86_tag() {
    let matcher = PlatformMatcher::new();
    let assets = names(&["N_x64.msi", "N_x86.msi"]);
    let m = matcher
        .find_matching_asset(&platform("windows", "i686"), &assets, None)
        .unwrap();
    assert_eq!(m.filename, "N_x86.msi");
    let m = matcher
        .find_matching_asset(&platform("windows", "x86"), &assets, None)
        .unwrap();
    assert_eq!(m.filename, "N_x86.msi");
}

#[test]
fn first_candidate_in_list_order_wins() {
    let matcher = PlatformMatcher::new();
    let p = platform("windows", "x86_64");
    let assets = names(&["B_x64.msi", "A_x64.msi", "A_x64.msi.sig"]);
    let m = matcher.find_matching_asset(&p, &assets, None).unwrap();
    assert_eq!(m.filename, "B_x64.msi");
    assert_eq!(m.signature_filename, None);
}

#[test]
fn empty_asset_list_gives_no_match() {
    let matcher = PlatformMatcher::new();
    let p = platform("windows", "x86_64");
    let assets: Vec<String> = Vec::new();
    match matcher.find_matching_asset(&p, &assets, None) {
        Err(MatchError::NoMatch { target, arch }) => {
            assert_eq!(target, "windows");
            assert_eq!(arch, "x86_64");
        }
        other => panic!("unexpected {:?}", other),
    }
}

#[test]
fn unknown_target_gives_no_match() {
    let matcher = PlatformMatcher::new();
    let p = platform("freebsd", "x86_64");
    let assets = names(&["N_x64.msi", "N_amd64.AppImage", "N_x64.dmg"]);
    assert!(matcher.find_matching_asset(&p, &assets, None).is_err());
}

#[test]
fn signature_match_is_exact() {
    let matcher = PlatformMatcher::new();
    let p = platform("windows", "x86_64");
    let assets = names(&["N_x64.msi", "N_x64.MSI.sig", "N_x64.msi.sig.bak"]);
    let m = matcher.find_matching_asset(&p, &assets, None).unwrap();
    assert_eq!(m.signature_filename, None);
}

#[test]
fn custom_rule_order_is_used() {
    let matcher = PlatformMatcher::with_rules(vec![RuleKind::Linux]);
    let assets = names(&["N_x64.msi", "N_amd64.AppImage"]);
    assert!(matcher
        .find_matching_asset(&platform("windows", "x86_64"), &assets, None)
        .is_err());
    let m = matcher
        .find_matching_asset(&platform("linux", "x86_64"), &assets, None)
        .unwrap();
    assert_eq!(m.filename, "N_amd64.AppImage");
}

#[test]
fn rules_lower_case_the_name() {
    let p = platform("windows", "x86_64");
    assert!(WindowsMsiRule.matches(&p, "N_X64.MSI"));
    assert!(!WindowsMsiRule.matches(&p, "N_x64.exe"));
    assert!(!MacOSRule.matches(&p, "N_x64.dmg"));
    let p = platform("linux", "x86_64");
    assert!(LinuxRule.matches(&p, "N_AMD64.APPIMAGE"));
    assert!(RuleKind::Linux.matches(&p, "N_amd64.AppImage"));
    assert!(!RuleKind::WindowsMsi.matches(&p, "N_amd64.AppImage"));
}

#[test]
fn signature_extensions() {
    assert_eq!(WindowsMsiRule.get_signature_extension(), ".msi.sig");
    assert_eq!(MacOSRule.get_signature_extension(), ".sig");
    assert_eq!(LinuxRule.get_signature_extension(), ".sig");
    assert_eq!(RuleKind::WindowsMsi.get_signature_extension(), ".msi.sig");
}

#[test]
fn match_error_messages_and_status() {
    let e = MatchError::NoMatch {
        target: "windows".to_string(),
        arch: "x86_64".to_string(),
    };
    assert_eq!(e.message(), "No matching asset found for windows x86_64");
    assert_eq!(e.status_code(), 404);
    let e = MatchError::NoSignature("N.msi".to_string());
    assert_eq!(e.message(), "No matching signature found for N.msi");
    assert_eq!(e.status_code(), 404);
}

#[test]
fn platform_describe() {
    assert_eq!(platform("darwin", "aarch64").describe(), "darwin aarch64");
}
