use metamorphosis::forge::{ForgeEntry, ForgeFile, ForgeVersion};
use metamorphosis::forge_index::{
    build_derived_index, collect_recommended, parse_forge_build, process_file_manifest,
};
use metamorphosis::jsonval::JsonValue;
use metamorphosis::MetaError;

fn s(text: &str) -> String {
    text.to_string()
}

fn jstr(text: &str) -> JsonValue {
    JsonValue::Str { s: text.to_string() }
}

fn jobj(fields: Vec<(&str, JsonValue)>) -> JsonValue {
    JsonValue::Obj {
        fields: fields.into_iter().map(|(k, v)| (k.to_string(), v)).collect(),
    }
}

fn manifest(classifiers: Vec<(&str, JsonValue)>) -> JsonValue {
    jobj(vec![("classifiers", jobj(classifiers))])
}

fn empty_manifest() -> JsonValue {
    manifest(vec![])
}

fn lookup<'a, V>(m: &'a [(String, V)], key: &str) -> Option<&'a V> {
    m.iter().find(|p| p.0 == key).map(|p| &p.1)
}

#[test]
fn recommended_collection_and_skips() {
    let promos = vec![
        (s("1.12.2-recommended"), s("14.23.5.2855")),
        (s("1.12.2-latest"), s("14.23.5.2860")),
        (s("nonsense"), s("1.0")),
        (s("1.7.10-latest-new"), s("10.13.4.1614")),
    ];
    let rec = collect_recommended(&promos).unwrap();
    assert_eq!(rec, vec![s("14.23.5.2855")]);
}

#[test]
fn unknown_promotion_kind_aborts() {
    let promos = vec![(s("1.12.2-preferred"), s("14.23.5.2855"))];
    assert_eq!(collect_recommended(&promos), Err(MetaError::UnparseableMetadata));
}

#[test]
fn build_string_grammar() {
    let b = parse_forge_build("1.12.2-14.23.5.2855").unwrap();
    assert_eq!(b.mc, "1.12.2");
    assert_eq!(b.version, "14.23.5.2855");
    assert_eq!(b.build, 2855);
    assert!(b.branch.is_none());

    let b = parse_forge_build("1.7.10-10.13.2.1300-new").unwrap();
    assert_eq!(b.mc, "1.7.10");
    assert_eq!(b.version, "10.13.2.1300");
    assert_eq!(b.build, 1300);
    assert_eq!(b.branch.as_deref(), Some("new"));

    assert!(parse_forge_build("not a build").is_none());
    assert!(parse_forge_build("1.12.2-fourteen").is_none());
    assert!(parse_forge_build("1.12.2").is_none());
}

#[test]
fn hash_normalization_accepts_32_chars() {
    // 32 alphanumeric characters once the punctuation is stripped
    let m = manifest(vec![(
        "installer",
        jobj(vec![("jar", jstr("a1:b2-c3d4e5f6a1b2c3d4e5f6a1b2c3d4"))]),
    )]);
    let files = process_file_manifest(&m).unwrap();
    let f = lookup(&files, "installer").expect("installer kept");
    assert_eq!(f.hash, "a1b2c3d4e5f6a1b2c3d4e5f6a1b2c3d4");
    assert_eq!(f.hash.len(), 32);
    assert_eq!(f.extension, "jar");
    assert_eq!(f.classifier, "installer");
}

#[test]
fn hash_normalization_drops_wrong_lengths() {
    // strips to 30 characters: dropped
    let short = manifest(vec![(
        "installer",
        jobj(vec![("jar", jstr("a1:b2-c3d4e5f6a1b2c3d4e5f6a1b2"))]),
    )]);
    let files = process_file_manifest(&short).unwrap();
    assert!(lookup(&files, "installer").is_none());

    // strips to 34 characters: dropped as well
    let long = manifest(vec![(
        "installer",
        jobj(vec![("jar", jstr("a1:b2-c3d4e5f6a1b2c3d4e5f6a1b2c3d4e5"))]),
    )]);
    let files = process_file_manifest(&long).unwrap();
    assert!(lookup(&files, "installer").is_none());
}

#[test]
fn manifest_selection_prefers_last_string_entry() {
    let m = manifest(vec![(
        "installer",
        jobj(vec![
            ("jar", jstr("00000000000000000000000000000000")),
            ("zip", jstr("11111111111111111111111111111111")),
        ]),
    )]);
    let files = process_file_manifest(&m).unwrap();
    let f = lookup(&files, "installer").unwrap();
    assert_eq!(f.extension, "zip");
    assert_eq!(f.hash, "11111111111111111111111111111111");

    // a non-string placeholder at the end is skipped in favour of the
    // entry before it
    let m = manifest(vec![(
        "installer",
        jobj(vec![
            ("jar", jstr("00000000000000000000000000000000")),
            ("zip", JsonValue::Null),
        ]),
    )]);
    let files = process_file_manifest(&m).unwrap();
    let f = lookup(&files, "installer").unwrap();
    assert_eq!(f.extension, "jar");
}

#[test]
fn duplicate_classifier_is_integrity_fault() {
    let m = manifest(vec![
        ("installer", jobj(vec![("jar", jstr("00000000000000000000000000000000"))])),
        ("installer", jobj(vec![("zip", jstr("11111111111111111111111111111111"))])),
    ]);
    assert!(matches!(
        process_file_manifest(&m),
        Err(MetaError::DataIntegrityFault)
    ));
}

#[test]
fn derived_index_latest_and_recommended() {
    let promos = vec![(s("1.12.2-recommended"), s("14.23.5.2855"))];
    let builds = vec![(
        s("1.12.2"),
        vec![s("1.12.2-14.23.5.2847"), s("1.12.2-14.23.5.2855")],
    )];
    let manifests = vec![
        (s("1.12.2-14.23.5.2847"), empty_manifest()),
        (s("1.12.2-14.23.5.2855"), empty_manifest()),
    ];
    let idx = build_derived_index(&promos, &builds, &manifests).unwrap();
    let mcs = idx.mc_versions.unwrap();
    let info = lookup(&mcs, "1.12.2").unwrap();
    assert_eq!(info.latest.as_deref(), Some("1.12.2-14.23.5.2855"));
    assert_eq!(info.recommended.as_deref(), Some("1.12.2-14.23.5.2855"));
    assert_eq!(
        info.versions.as_ref().unwrap(),
        &vec![s("1.12.2-14.23.5.2847"), s("1.12.2-14.23.5.2855")]
    );

    let vers = idx.versions.unwrap();
    let latest_entry: &ForgeEntry = lookup(&vers, "1.12.2-14.23.5.2855").unwrap();
    assert_eq!(latest_entry.latest, Some(true));
    assert_eq!(latest_entry.recommended, Some(true));
    assert_eq!(latest_entry.build, 2855);
    let older_entry: &ForgeEntry = lookup(&vers, "1.12.2-14.23.5.2847").unwrap();
    assert_eq!(older_entry.latest, Some(false));
    assert_eq!(older_entry.recommended, Some(false));
}

#[test]
fn latest_is_positional_not_numeric() {
    let promos = vec![];
    let builds = vec![(
        s("1.7.10"),
        vec![s("1.7.10-10.13.4.1614"), s("1.7.10-10.13.4.1558")],
    )];
    let manifests = vec![
        (s("1.7.10-10.13.4.1614"), empty_manifest()),
        (s("1.7.10-10.13.4.1558"), empty_manifest()),
    ];
    let idx = build_derived_index(&promos, &builds, &manifests).unwrap();
    let mcs = idx.mc_versions.unwrap();
    let info = lookup(&mcs, "1.7.10").unwrap();
    // the second build is numerically smaller but appended last
    assert_eq!(info.latest.as_deref(), Some("1.7.10-10.13.4.1558"));
    assert!(info.recommended.is_none());
}

#[test]
fn mc_token_mismatch_aborts_the_run() {
    let builds = vec![(s("1.12.2"), vec![s("1.7.10-10.13.4.1558")])];
    let manifests = vec![(s("1.7.10-10.13.4.1558"), empty_manifest())];
    assert!(matches!(
        build_derived_index(&vec![], &builds, &manifests),
        Err(MetaError::DataIntegrityFault)
    ));
}

#[test]
fn malformed_build_string_aborts_the_run() {
    let builds = vec![(s("1.12.2"), vec![s("1.12.2-garbage!")])];
    let manifests = vec![];
    assert!(matches!(
        build_derived_index(&vec![], &builds, &manifests),
        Err(MetaError::UnparseableMetadata)
    ));
}

#[test]
fn entry_files_come_from_the_manifest() {
    let builds = vec![(s("1.12.2"), vec![s("1.12.2-14.23.5.2855")])];
    let manifests = vec![(
        s("1.12.2-14.23.5.2855"),
        manifest(vec![(
            "installer",
            jobj(vec![("jar", jstr("abcdefabcdefabcdefabcdefabcdefab"))]),
        )]),
    )];
    let idx = build_derived_index(&vec![], &builds, &manifests).unwrap();
    let vers = idx.versions.unwrap();
    let entry = lookup(&vers, "1.12.2-14.23.5.2855").unwrap();
    let files = entry.files.as_ref().unwrap();
    let f: &ForgeFile = lookup(files, "installer").unwrap();
    assert_eq!(f.hash, "abcdefabcdefabcdefabcdefabcdefab");
}

fn entry_with_files(mc: &str, version: &str, files: Vec<(&str, &str, &str)>) -> ForgeEntry {
    ForgeEntry {
        long_version: format!("{}-{}", mc, version),
        mc_version: s(mc),
        version: s(version),
        build: 1,
        branch: None,
        latest: Some(false),
        recommended: Some(false),
        files: Some(
            files
                .into_iter()
                .map(|(classifier, hash, extension)| {
                    (
                        s(classifier),
                        ForgeFile {
                            classifier: s(classifier),
                            hash: s(hash),
                            extension: s(extension),
                        },
                    )
                })
                .collect(),
        ),
    }
}

#[test]
fn uses_installer_policy() {
    let hash = "00000000000000000000000000000000";
    // installer present, ordinary platform version
    let v = ForgeVersion::from_entry(entry_with_files(
        "1.12.2",
        "14.23.5.2855",
        vec![("installer", hash, "jar")],
    ));
    assert!(v.uses_installer());

    // installer present, but the excluded platform version
    let v = ForgeVersion::from_entry(entry_with_files(
        "1.5.2",
        "7.8.1.738",
        vec![("installer", hash, "jar")],
    ));
    assert!(!v.uses_installer());

    // no installer at all
    let v = ForgeVersion::from_entry(entry_with_files(
        "1.12.2",
        "14.23.5.2855",
        vec![("universal", hash, "jar")],
    ));
    assert!(!v.uses_installer());
}

#[test]
fn artifact_selection_and_urls() {
    let hash = "00000000000000000000000000000000";
    let v = ForgeVersion::from_entry(entry_with_files(
        "1.12.2",
        "14.23.5.2855",
        vec![("installer", hash, "jar"), ("universal", hash, "zip")],
    ));
    assert_eq!(v.file_name().unwrap(), "forge-1.12.2-14.23.5.2855-installer.jar");
    assert_eq!(
        v.url().unwrap(),
        "https://files.minecraftforge.net/maven/net/minecraftforge/forge/1.12.2-14.23.5.2855/forge-1.12.2-14.23.5.2855-installer.jar"
    );
    assert_eq!(v.name(), "Forge 1");

    // universal preferred over client when no installer is usable
    let v = ForgeVersion::from_entry(entry_with_files(
        "1.5.2",
        "7.8.1.738",
        vec![("client", hash, "zip"), ("universal", hash, "jar"), ("installer", hash, "jar")],
    ));
    assert_eq!(v.file_name().unwrap(), "forge-1.5.2-7.8.1.738-universal.jar");
}

#[test]
fn is_supported_requires_numeric_major_token() {
    let hash = "00000000000000000000000000000000";
    let v = ForgeVersion::from_entry(entry_with_files(
        "1.12.2",
        "1.2.3.45",
        vec![("universal", hash, "jar")],
    ));
    assert!(v.is_supported());

    let v = ForgeVersion::from_entry(entry_with_files(
        "1.12.2",
        "deadbeef.5",
        vec![("universal", hash, "jar")],
    ));
    assert!(!v.is_supported());

    // no chosen URL at all
    let v = ForgeVersion::from_entry(entry_with_files("1.12.2", "1.2.3.45", vec![]));
    assert!(!v.is_supported());
}

#[test]
fn branch_goes_into_the_long_version() {
    let e = ForgeEntry {
        long_version: s("1.7.10-10.13.2.1300-new"),
        mc_version: s("1.7.10"),
        version: s("10.13.2.1300"),
        build: 1300,
        branch: Some(s("new")),
        latest: Some(false),
        recommended: Some(false),
        files: None,
    };
    let v = ForgeVersion::from_entry(e);
    assert_eq!(v.long_version, "1.7.10-10.13.2.1300-new");
    assert_eq!(v.mc_version_sane, "1.7.10");
    assert!(v.url().is_none());
}

#[test]
fn pre_release_platform_version_is_sanitized() {
    let e = ForgeEntry {
        long_version: s("1.7.10_pre4-10.12.2.1149"),
        mc_version: s("1.7.10_pre4"),
        version: s("10.12.2.1149"),
        build: 1149,
        branch: None,
        latest: Some(false),
        recommended: Some(false),
        files: None,
    };
    let v = ForgeVersion::from_entry(e);
    assert_eq!(v.mc_version_sane, "1.7.10-pre4");
}
