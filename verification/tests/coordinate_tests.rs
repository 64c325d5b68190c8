use metamorphosis::coordinate::GradleSpecifier;
use metamorphosis::MetaError;

fn coord(
    group: &str,
    artifact: &str,
    version: &str,
    extension: Option<&str>,
    classifier: Option<&str>,
) -> GradleSpecifier {
    GradleSpecifier {
        group: group.to_string(),
        artifact: artifact.to_string(),
        version: version.to_string(),
        extension: extension.map(|e| e.to_string()),
        classifier: classifier.map(|c| c.to_string()),
    }
}

fn roundtrip_through_text(c: &GradleSpecifier) -> GradleSpecifier {
    GradleSpecifier::parse(&c.to_text()).expect("canonical text must parse")
}

#[test]
fn parse_plain_coordinate() {
    let c = GradleSpecifier::parse("org.ow2.asm:asm:6.2").unwrap();
    assert_eq!(c.group, "org.ow2.asm");
    assert_eq!(c.artifact, "asm");
    assert_eq!(c.version, "6.2");
    assert_eq!(c.extension.as_deref(), Some("jar"));
    assert!(c.classifier.is_none());
}

#[test]
fn parse_classifier_and_extension() {
    let c = GradleSpecifier::parse("net.minecraftforge:forge:1.12.2-14.23.5.2855:installer@zip")
        .unwrap();
    assert_eq!(c.group, "net.minecraftforge");
    assert_eq!(c.artifact, "forge");
    assert_eq!(c.version, "1.12.2-14.23.5.2855");
    assert_eq!(c.classifier.as_deref(), Some("installer"));
    assert_eq!(c.extension.as_deref(), Some("zip"));
}

#[test]
fn parse_rejects_short_coordinate() {
    assert!(matches!(
        GradleSpecifier::parse("group:artifact"),
        Err(MetaError::MalformedCoordinate)
    ));
    assert!(matches!(
        GradleSpecifier::parse(""),
        Err(MetaError::MalformedCoordinate)
    ));
}

#[test]
fn parse_format_roundtrip_without_classifier() {
    let c = coord("com.mojang", "minecraft", "1.12.2", Some("jar"), None);
    let back = roundtrip_through_text(&c);
    assert_eq!(back.group, c.group);
    assert_eq!(back.artifact, c.artifact);
    assert_eq!(back.version, c.version);
    assert_eq!(back.extension, c.extension);
    assert_eq!(back.classifier, c.classifier);
}

#[test]
fn parse_format_roundtrip_with_classifier_and_extension() {
    let c = coord("com.mojang", "minecraft", "1.12.2", Some("zip"), Some("client"));
    assert_eq!(c.to_text(), "com.mojang:minecraft:1.12.2:client@zip");
    let back = roundtrip_through_text(&c);
    assert_eq!(back.group, c.group);
    assert_eq!(back.artifact, c.artifact);
    assert_eq!(back.version, c.version);
    assert_eq!(back.extension, c.extension);
    assert_eq!(back.classifier, c.classifier);
}

#[test]
fn format_parse_roundtrip_on_canonical_text() {
    for s in [
        "org.lwjgl:lwjgl:2.9.1",
        "org.lwjgl:lwjgl:2.9.1:natives-linux",
        "net.minecraftforge:forge:1.12.2:installer@zip",
    ] {
        let c = GradleSpecifier::parse(s).unwrap();
        assert_eq!(c.to_text(), s);
    }
}

#[test]
fn default_extension_is_elided() {
    let c = coord("a.b", "c", "1.0", Some("jar"), None);
    assert_eq!(c.to_text(), "a.b:c:1.0");
}

#[test]
fn filename_base_and_path() {
    let c = coord("net.minecraftforge", "forge", "1.12.2", Some("jar"), None);
    assert_eq!(c.filename(), "forge-1.12.2.jar");
    assert_eq!(c.base(), "net/minecraftforge/forge/1.12.2");
    assert_eq!(c.path(), "net/minecraftforge/forge/1.12.2/forge-1.12.2.jar");

    let cl = coord("a.b", "art", "2.0", Some("zip"), Some("sources"));
    assert_eq!(cl.filename(), "art-2.0-sources.zip");
}

#[test]
fn filename_with_absent_extension() {
    let c = coord("a", "b", "1", None, None);
    assert_eq!(c.filename(), "b-1.");
}

#[test]
fn library_family_predicates() {
    assert!(coord("org.lwjgl", "lwjgl", "2.9.1", Some("jar"), None).is_lwjgl());
    assert!(coord("org.lwjgl.lwjgl", "lwjgl", "2.9.1", Some("jar"), None).is_lwjgl());
    assert!(coord("net.java.jinput", "jinput", "2.0.5", Some("jar"), None).is_lwjgl());
    assert!(coord("net.java.jutils", "jutils", "1.0.0", Some("jar"), None).is_lwjgl());
    assert!(!coord("org.ow2.asm", "asm", "6.2", Some("jar"), None).is_lwjgl());

    assert!(coord("org.apache.logging.log4j", "log4j-api", "2.11.2", Some("jar"), None)
        .is_log4j());
    assert!(!coord("org.apache.maven", "maven-artifact", "3.6.0", Some("jar"), None).is_log4j());
}
