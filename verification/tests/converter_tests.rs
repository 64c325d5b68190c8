use metamorphosis::fabric::get_maven_url;
use metamorphosis::jsonval::JsonValue;
use metamorphosis::mojang::{
    default_java_component, default_java_version, validate_launcher_version, MojangArtifactBase,
    MojangIndex, MojangIndexEntry, MojangVersionFile, MAX_MOJANG_SUPPORTED_VERSION,
};
use metamorphosis::polymc::{
    default_format_version, validate_format_version, LegacyOverrideEntry, PolyMCSharedPackageData,
    PolyMCVersionFile, CURRENT_POLYMC_FORMAT_VERSION,
};
use metamorphosis::profiles::{resolve_installer_profile, ProfileGeneration};
use metamorphosis::MetaError;

fn s(text: &str) -> String {
    text.to_string()
}

fn jstr(text: &str) -> JsonValue {
    JsonValue::Str { s: text.to_string() }
}

fn jobj(fields: Vec<(&str, JsonValue)>) -> JsonValue {
    JsonValue::Obj {
        fields: fields.into_iter().map(|(k, v)| (k.to_string(), v)).collect(),
    }
}

fn empty_mojang_file() -> MojangVersionFile {
    MojangVersionFile {
        arguments: None,
        asset_index: None,
        assets: None,
        downloads: None,
        id: None,
        libraries: None,
        main_class: None,
        process_arguments: None,
        minecraft_arguments: None,
        minimum_launcher_version: None,
        release_time: None,
        time: None,
        inherits_from: None,
        logging: None,
        compliance_level: None,
        java_version: None,
        version_type: None,
    }
}

fn file_with_client_download() -> MojangVersionFile {
    let mut file = empty_mojang_file();
    file.id = Some(s("1.12.2"));
    file.downloads = Some(vec![(
        s("client"),
        MojangArtifactBase {
            sha1: Some(s("1914f24b5ba6a5a20cd67c1b9a3ece02bc18fa34")),
            size: Some(163781),
            url: s("https://launcher.mojang.com/client.jar"),
        },
    )]);
    file
}

fn valid_install_section() -> JsonValue {
    jobj(vec![
        ("profileName", jstr("forge")),
        ("target", jstr("1.12.2-forge")),
        ("path", jstr("net.minecraftforge:forge:1.12.2-14.23.5.2855")),
        ("version", jstr("14.23.5.2855")),
        ("filePath", jstr("forge.jar")),
        ("welcome", jstr("Welcome")),
        ("minecraft", jstr("1.12.2")),
        ("logo", jstr("/logo.png")),
        ("mirrorList", jstr("https://mirrors.example")),
    ])
}

#[test]
fn gen1_wins_even_when_gen15_also_matches() {
    let payload = jobj(vec![
        ("install", valid_install_section()),
        ("versionInfo", jobj(vec![])),
        ("data", jstr("anything")),
        ("processors", JsonValue::Arr { items: vec![] }),
        ("libraries", JsonValue::Arr { items: vec![] }),
    ]);
    assert_eq!(
        resolve_installer_profile(&payload, true),
        Ok(Some(ProfileGeneration::Gen1))
    );
}

#[test]
fn gen2_and_gen15_fallbacks() {
    let gen2 = jobj(vec![(
        "data",
        jobj(vec![(
            "MOJMAPS",
            jobj(vec![("client", jstr("[a:b:1]")), ("server", jstr("[a:b:1]"))]),
        )]),
    )]);
    assert_eq!(
        resolve_installer_profile(&gen2, true),
        Ok(Some(ProfileGeneration::Gen2))
    );

    // data is present but not a map of objects: generation 1.5 applies
    let gen15 = jobj(vec![
        ("data", jstr("opaque")),
        ("processors", JsonValue::Arr { items: vec![] }),
        ("libraries", JsonValue::Arr { items: vec![] }),
    ]);
    assert_eq!(
        resolve_installer_profile(&gen15, true),
        Ok(Some(ProfileGeneration::Gen15))
    );
}

#[test]
fn unresolvable_profile_policy_depends_on_support() {
    let payload = jobj(vec![("something", jstr("else"))]);
    // supported build: hard error
    assert_eq!(
        resolve_installer_profile(&payload, true),
        Err(MetaError::UnparseableInstallerProfile)
    );
    // legacy build: skipped
    assert_eq!(resolve_installer_profile(&payload, false), Ok(None));
}

#[test]
fn gen1_requires_parseable_path() {
    let mut section_fields = vec![
        ("profileName", jstr("forge")),
        ("target", jstr("t")),
        ("path", jstr("not-a-coordinate")),
        ("version", jstr("v")),
        ("filePath", jstr("f")),
        ("welcome", jstr("w")),
        ("minecraft", jstr("1.12.2")),
        ("logo", jstr("l")),
        ("mirrorList", jstr("m")),
    ];
    let payload = jobj(vec![
        ("install", jobj(section_fields.drain(..).collect())),
        ("versionInfo", jobj(vec![])),
    ]);
    assert_eq!(resolve_installer_profile(&payload, false), Ok(None));
}

#[test]
fn conversion_copies_fields_and_synthesizes_main_jar() {
    let mut file = file_with_client_download();
    file.main_class = Some(s("net.minecraft.client.main.Main"));
    file.minecraft_arguments = Some(s("--username ${auth_player_name}"));
    file.release_time = Some(s("2017-09-18T08:39:46+00:00"));
    file.version_type = Some(s("release"));

    let pmc = PolyMCVersionFile::from_mojang_file(
        file,
        s("Minecraft"),
        s("net.minecraft"),
        s("1.12.2"),
    )
    .unwrap();

    assert_eq!(pmc.name, "Minecraft");
    assert_eq!(pmc.uid, "net.minecraft");
    assert_eq!(pmc.version, "1.12.2");
    assert_eq!(pmc.main_class.as_deref(), Some("net.minecraft.client.main.Main"));
    assert_eq!(
        pmc.minecraft_arguments.as_deref(),
        Some("--username ${auth_player_name}")
    );
    assert_eq!(pmc.release_time.as_deref(), Some("2017-09-18T08:39:46+00:00"));
    assert_eq!(pmc.version_file_type.as_deref(), Some("release"));
    assert_eq!(
        pmc.versioned_json_object.format_version,
        CURRENT_POLYMC_FORMAT_VERSION
    );

    let main_jar = pmc.main_jar.expect("main jar synthesized");
    assert_eq!(main_jar.library.name.group, "com.mojang");
    assert_eq!(main_jar.library.name.artifact, "minecraft");
    assert_eq!(main_jar.library.name.version, "1.12.2");
    assert_eq!(main_jar.library.name.classifier.as_deref(), Some("client"));
    let downloads = main_jar.library.downloads.unwrap();
    let artifact = downloads.artifact.unwrap();
    assert_eq!(
        artifact.artifact_base.url,
        "https://launcher.mojang.com/client.jar"
    );
    assert_eq!(artifact.artifact_base.size, Some(163781));
}

#[test]
fn missing_client_download_is_a_hard_error() {
    let mut file = empty_mojang_file();
    file.id = Some(s("1.12.2"));
    // no downloads at all
    let r = PolyMCVersionFile::from_mojang_file(file, s("n"), s("u"), s("1.12.2"));
    assert!(matches!(r, Err(MetaError::MissingRequiredDownload)));

    let mut file = empty_mojang_file();
    file.id = Some(s("1.12.2"));
    file.downloads = Some(vec![(
        s("server"),
        MojangArtifactBase { sha1: None, size: None, url: s("https://example/server.jar") },
    )]);
    let r = PolyMCVersionFile::from_mojang_file(file, s("n"), s("u"), s("1.12.2"));
    assert!(matches!(r, Err(MetaError::MissingRequiredDownload)));
}

#[test]
fn compliance_level_translation() {
    let mut file = file_with_client_download();
    file.compliance_level = Some(1);
    let pmc = PolyMCVersionFile::from_mojang_file(file, s("n"), s("u"), s("1.12.2")).unwrap();
    assert_eq!(pmc.add_traits.unwrap(), vec![s("XR:Initial")]);

    let mut file = file_with_client_download();
    file.compliance_level = Some(2);
    let r = PolyMCVersionFile::from_mojang_file(file, s("n"), s("u"), s("1.12.2"));
    assert!(matches!(
        r,
        Err(MetaError::UnsupportedComplianceLevel { got: 2, max: 1 })
    ));
}

#[test]
fn legacy_override_rewrites_and_discards() {
    let mut file = file_with_client_download();
    file.main_class = Some(s("old.Main"));
    file.minecraft_arguments = Some(s("--old"));
    file.libraries = Some(vec![]);
    file.release_time = Some(s("2011-01-01T00:00:00+00:00"));
    let mut pmc =
        PolyMCVersionFile::from_mojang_file(file, s("n"), s("u"), s("1.0")).unwrap();
    pmc.add_traits = Some(vec![s("existing")]);

    let override_entry = LegacyOverrideEntry {
        release_time: Some(s("2010-06-30T00:00:00+00:00")),
        main_class: Some(s("new.Main")),
        applet_class: Some(s("new.Applet")),
        add_traits: Some(vec![s("legacyLaunch")]),
    };
    pmc.apply_legacy_override(&override_entry);

    assert_eq!(pmc.main_class.as_deref(), Some("new.Main"));
    assert_eq!(pmc.applet_class.as_deref(), Some("new.Applet"));
    assert_eq!(pmc.release_time.as_deref(), Some("2010-06-30T00:00:00+00:00"));
    assert!(pmc.libraries.is_none());
    assert!(pmc.minecraft_arguments.is_none());
    assert_eq!(pmc.add_traits.unwrap(), vec![s("existing"), s("legacyLaunch")]);
}

#[test]
fn legacy_override_keeps_release_time_when_absent() {
    let mut pmc = PolyMCVersionFile::new(s("n"), s("1.0"), s("u"));
    pmc.release_time = Some(s("2011-01-01T00:00:00+00:00"));
    let override_entry = LegacyOverrideEntry {
        release_time: None,
        main_class: None,
        applet_class: None,
        add_traits: None,
    };
    pmc.apply_legacy_override(&override_entry);
    assert_eq!(pmc.release_time.as_deref(), Some("2011-01-01T00:00:00+00:00"));
    assert!(pmc.main_class.is_none());
}

#[test]
fn version_ceilings_are_symmetric_hard_errors() {
    assert_eq!(
        validate_launcher_version(Some(21), MAX_MOJANG_SUPPORTED_VERSION),
        Ok(Some(21))
    );
    assert_eq!(
        validate_launcher_version(None, MAX_MOJANG_SUPPORTED_VERSION),
        Ok(None)
    );
    assert_eq!(
        validate_launcher_version(Some(22), MAX_MOJANG_SUPPORTED_VERSION),
        Err(MetaError::UnsupportedFormatVersion { got: 22, max: 21 })
    );

    assert_eq!(validate_format_version(1, CURRENT_POLYMC_FORMAT_VERSION), Ok(1));
    assert_eq!(
        validate_format_version(2, CURRENT_POLYMC_FORMAT_VERSION),
        Err(MetaError::UnsupportedFormatVersion { got: 2, max: 1 })
    );
    assert_eq!(default_format_version(), 1);
}

#[test]
fn java_defaults() {
    assert_eq!(default_java_component(), "jre-legacy");
    assert_eq!(default_java_version(), 8);
}

#[test]
fn shared_package_data_construction() {
    let data = PolyMCSharedPackageData::new(s("net.minecraft"), s("Minecraft"));
    assert_eq!(data.uid, "net.minecraft");
    assert_eq!(data.name, "Minecraft");
    assert_eq!(
        data.versioned_json_object.format_version,
        CURRENT_POLYMC_FORMAT_VERSION
    );
    assert!(data.recommended.is_none());
}

#[test]
fn maven_url_derivation() {
    assert_eq!(
        get_maven_url("net.fabricmc:fabric-loader:0.14.9", "https://maven.fabricmc.net/", ".jar"),
        "https://maven.fabricmc.net/net/fabricmc/fabric-loader/0.14.9/fabric-loader-0.14.9.jar"
    );
    assert_eq!(
        get_maven_url("a.b:c:1.0:extra", "https://repo/", ".json"),
        "https://repo/a/b/c/1.0:extra/c-1.0:extra.json"
    );
}

fn index_entry(id: &str) -> MojangIndexEntry {
    MojangIndexEntry {
        id: s(id),
        release_time: s("2017-09-18T08:39:46+00:00"),
        time: s("2017-09-18T08:39:46+00:00"),
        version_type: s("release"),
        url: format!("https://launchermeta.mojang.com/{}.json", id),
        sha1: None,
        compliance_level: None,
    }
}

#[test]
fn version_index_lookup_is_idempotent() {
    let mut index = MojangIndex::new();
    index.push_version(index_entry("1.12.2"));
    index.push_version(index_entry("1.13"));

    let first: Vec<String> = index.version_map().iter().map(|p| p.0.clone()).collect();
    let second: Vec<String> = index.version_map().iter().map(|p| p.0.clone()).collect();
    assert_eq!(first, second);
    assert_eq!(first, vec![s("1.12.2"), s("1.13")]);
    assert!(index.lookup("1.13").is_some());
    assert!(index.lookup("1.14").is_none());
}

#[test]
fn version_index_lookup_ignores_later_pushes() {
    let mut index = MojangIndex::new();
    index.push_version(index_entry("1.12.2"));

    // build the memoized lookup
    assert!(index.lookup("1.12.2").is_some());

    // mutating the backing sequence afterwards does not refresh it
    index.push_version(index_entry("1.13"));
    assert!(index.lookup("1.13").is_none());
    assert!(index.lookup("1.12.2").is_some());
    assert_eq!(index.versions.len(), 2);
}

#[test]
fn version_diff_orders_and_filters() {
    let local = vec![s("1.12.2"), s("1.13")];
    let remote = vec![s("1.13"), s("1.14"), s("1.12.2"), s("1.15")];
    let (new_ids, common_ids) = metamorphosis::mojang::version_diff(&local, &remote);
    assert_eq!(new_ids, vec![s("1.14"), s("1.15")]);
    assert_eq!(common_ids, vec![s("1.12.2"), s("1.13")]);
}

#[test]
fn duplicate_ids_last_write_wins() {
    let mut index = MojangIndex::new();
    index.push_version(index_entry("1.12.2"));
    let mut newer = index_entry("1.12.2");
    newer.version_type = s("snapshot");
    index.push_version(newer);

    let entry = index.lookup("1.12.2").unwrap();
    assert_eq!(entry.version_type, "snapshot");
    assert_eq!(index.version_map().len(), 1);
}
