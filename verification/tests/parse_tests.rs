use fapt::ParseError;
use fapt::arch::Arch;
use fapt::pkg::Package;
use fapt::pkg::PackageType;
use fapt::pkg::Priority;
use fapt::pkg::parse_priority;
use fapt::rfc822::scan;
use fapt::version::Constraint;
use fapt::version::ConstraintOperator;

const SOURCE_BLOCK_ALIEN: &str = r#"Package: alien-arena
Binary: alien-arena, alien-arena-server
Version: 7.66+dfsg-5
Maintainer: Debian Games Team <pkg-games-devel@lists.alioth.debian.org>
Uploaders: Michael Gilbert <mgilbert@debian.org>, Barry deFreese <bddebian@comcast.net>
Build-Depends: debhelper (>= 10), sharutils, libglu1-mesa-dev, libgl1-mesa-dev, libjpeg-dev, libpng-dev, libxxf86vm-dev, libxxf86dga-dev, libxext-dev, libx11-dev, libcurl4-gnutls-dev, libopenal-dev, libvorbis-dev, libfreetype6-dev, pkg-config
Architecture: any
Standards-Version: 4.0.1
Format: 3.0 (quilt)
Files:
 f26e5a6a298163277318a720b77a3b58 2291 alien-arena_7.66+dfsg-5.dsc
 af12838d2346b05a6e043141ceb40c49 1767600 alien-arena_7.66+dfsg.orig.tar.gz
 d806e404397c6338eae0d6470b4e8723 13844 alien-arena_7.66+dfsg-5.debian.tar.xz
Vcs-Browser: https://salsa.debian.org/games-team/alien-arena
Vcs-Git: https://salsa.debian.org/games-team/alien-arena.git
Checksums-Sha256:
 85eabee2877db5e070cd6549078ece3e5b4bc35a3a33ff8987d06fbb9732cd6e 2291 alien-arena_7.66+dfsg-5.dsc
 d4d173aba65fbdbf338e4fbdcb04a888e0cd3790e6de72597ba74b0bef42c14b 1767600 alien-arena_7.66+dfsg.orig.tar.gz
 6e90eabd98ac9c98ebe55b064ceb427101a3d4d4ff0b8aa4a2cea28052ec34c1 13844 alien-arena_7.66+dfsg-5.debian.tar.xz
Homepage: http://red.planetarena.org
Package-List:
 alien-arena deb contrib/games optional arch=any
 alien-arena-server deb contrib/games optional arch=any
Directory: pool/contrib/a/alien-arena
Priority: source
Section: contrib/games
"#;

fn parse_one(text: &str) -> Package {
    let mut paras = scan(text).unwrap();
    assert!(!paras.is_empty());
    Package::parse(paras.remove(0)).unwrap()
}

#[test]
fn parse_alien() {
    let pkg = parse_one(SOURCE_BLOCK_ALIEN);

    assert_eq!("7.66+dfsg-5", pkg.version);

    let src = match pkg.style {
        PackageType::Source(s) => s,
        other => panic!("bad type: {:?}", other),
    };

    assert_eq!(
        vec!["alien-arena", "alien-arena-server"],
        src.binaries
            .into_iter()
            .map(|b| b.name)
            .collect::<Vec<String>>()
    );
    assert_eq!(0, pkg.unparsed.len());
}

const PROVIDES_EXAMPLE: &str = r#"Package: python3-cffi-backend
Status: install ok installed
Priority: optional
Section: python
Installed-Size: 190
Maintainer: Ubuntu Developers <ubuntu-devel-discuss@lists.ubuntu.com>
Architecture: amd64
Source: python-cffi
Version: 1.11.5-1
Replaces: python3-cffi (<< 1)
Provides: python3-cffi-backend-api-9729, python3-cffi-backend-api-max (= 10495), python3-cffi-backend-api-min (= 9729)
Depends: python3 (<< 3.7), python3 (>= 3.6~), python3:any (>= 3.1~), libc6 (>= 2.14), libffi6 (>= 3.0.4)
Breaks: python3-cffi (<< 1)
Description: Foreign Function Interface for Python 3 calling C code - runtime
 Convenient and reliable way of calling C code from Python 3.
 .
 The aim of this project is to provide a convenient and reliable way of calling
 C code from Python. It keeps Python logic in Python, and minimises the C
 required. It is able to work at either the C API or ABI level, unlike most
 other approaches, that only support the ABI level.
 .
 This package contains the runtime support for pre-built cffi modules.
Original-Maintainer: Debian Python Modules Team <python-modules-team@lists.alioth.debian.org>
Homepage: http://cffi.readthedocs.org/
"#;

#[test]
fn version() {
    let cons = Constraint::new(ConstraintOperator::Gt, "1.0");
    assert!(cons.satisfied_by("2.0"));
    assert!(!cons.satisfied_by("1.0"));
}

#[test]
fn parse_provides() {
    let p = parse_one(PROVIDES_EXAMPLE);
    assert_eq!("python3-cffi-backend", p.name.as_str());
    let bin = match p.style {
        PackageType::Binary(bin) => bin,
        _ => panic!("wrong type!"),
    };
    assert_eq!(3, bin.provides.len());
    assert_eq!(0, p.unparsed.len());
}

#[test]
fn provides_alternatives() {
    let p = parse_one(PROVIDES_EXAMPLE);
    let bin = match p.style {
        PackageType::Binary(bin) => bin,
        _ => panic!("wrong type!"),
    };
    for dep in &bin.provides {
        assert_eq!(1, dep.alternate.len());
    }
    assert_eq!("python3-cffi-backend-api-9729", bin.provides[0].alternate[0].package);
    assert_eq!(0, bin.provides[0].alternate[0].version_constraints.len());
    let second = &bin.provides[1].alternate[0];
    assert_eq!("python3-cffi-backend-api-max", second.package);
    assert_eq!(1, second.version_constraints.len());
    assert_eq!(ConstraintOperator::Eq, second.version_constraints[0].operator);
    assert_eq!("10495", second.version_constraints[0].version);
}

#[test]
fn depends_details() {
    let p = parse_one(PROVIDES_EXAMPLE);
    let bin = match p.style {
        PackageType::Binary(bin) => bin,
        _ => panic!("wrong type!"),
    };
    assert_eq!(5, bin.depends.len());
    let first = &bin.depends[0].alternate[0];
    assert_eq!("python3", first.package);
    assert_eq!(None, first.arch);
    assert_eq!(ConstraintOperator::Lt, first.version_constraints[0].operator);
    assert_eq!("3.7", first.version_constraints[0].version);
    let third = &bin.depends[2].alternate[0];
    assert_eq!("python3", third.package);
    assert_eq!(Some(Arch::Any), third.arch);
    assert_eq!(ConstraintOperator::Ge, third.version_constraints[0].operator);
    assert_eq!("3.1~", third.version_constraints[0].version);
    assert_eq!(190, bin.installed_size);
    assert_eq!(Some("python-cffi".to_string()), bin.source);
    assert_eq!(Some("install ok installed".to_string()), bin.status);
    assert!(bin.description.starts_with("Foreign Function Interface"));
}

#[test]
fn shared_fields() {
    let p = parse_one(PROVIDES_EXAMPLE);
    assert_eq!(vec![Arch::Amd64], p.arches);
    assert_eq!(Priority::Optional, p.priority());
    assert_eq!(Some("python".to_string()), p.section());
    assert_eq!(Some("http://cffi.readthedocs.org/".to_string()), p.homepage);
    assert_eq!(1, p.maintainer.len());
    assert_eq!("Ubuntu Developers", p.maintainer[0].name);
    assert_eq!("ubuntu-devel-discuss@lists.ubuntu.com", p.maintainer[0].email);
    assert_eq!(1, p.original_maintainer.len());
    assert_eq!("Debian Python Modules Team", p.original_maintainer[0].name);
}

#[test]
fn alien_source_fields() {
    let pkg = parse_one(SOURCE_BLOCK_ALIEN);
    assert_eq!("alien-arena", pkg.name);
    assert_eq!(Priority::Source, pkg.priority());
    assert_eq!(Some("contrib/games".to_string()), pkg.section());
    let src = pkg.as_src().unwrap();
    assert_eq!("pool/contrib/a/alien-arena", src.directory);
    assert_eq!("4.0.1", src.standards_version);
    assert_eq!(15, src.build_dep.len());
    let dh = &src.build_dep[0].alternate[0];
    assert_eq!("debhelper", dh.package);
    assert_eq!(ConstraintOperator::Ge, dh.version_constraints[0].operator);
    assert_eq!("10", dh.version_constraints[0].version);
    assert_eq!(2, src.vcs.len());
    assert_eq!(2, src.uploaders.len());
    assert_eq!("Michael Gilbert", src.uploaders[0].name);
    assert_eq!(3, src.files.len());
    let dsc = &src.files[0];
    assert_eq!("alien-arena_7.66+dfsg-5.dsc", dsc.name);
    assert_eq!(2291, dsc.size);
    assert_eq!(Some("f26e5a6a298163277318a720b77a3b58".to_string()), dsc.md5);
    assert_eq!(
        Some("85eabee2877db5e070cd6549078ece3e5b4bc35a3a33ff8987d06fbb9732cd6e".to_string()),
        dsc.sha256
    );
    assert_eq!(None, dsc.sha1);
}

#[test]
fn arch_round_trip() {
    for token in [
        "all", "any", "amd64", "armel", "armhf", "arm64", "i386", "ia64", "kfreebsd-amd64",
        "kfreebsd-i386", "mips", "mipsel", "mips64", "mips64el", "ppc64el", "s390x", "linux-any",
        "x32",
    ] {
        let arch = Arch::parse(token).unwrap();
        assert_eq!(Some(token), arch.token());
    }
    assert!(Arch::parse("sparc").is_err());
    assert!(Arch::parse("").is_err());
    assert_eq!(None, Arch::token(&Arch::ParserBug));
}

#[test]
fn arches_collapse_to_a_set() {
    let text = "Package: x\nVersion: 1\nMaintainer: A <a@b>\nArchitecture: amd64 amd64 i386\nDescription: d\n";
    let p = parse_one(text);
    assert_eq!(vec![Arch::Amd64, Arch::I386], p.arches);
}

#[test]
fn arch_filter_collapses_to_a_set() {
    let text = "Package: x\nVersion: 1\nMaintainer: A <a@b>\nArchitecture: all\nDescription: d\nDepends: y [amd64 amd64 i386]\n";
    let p = parse_one(text);
    let bin = p.as_bin().unwrap();
    assert_eq!(vec![Arch::Amd64, Arch::I386], bin.depends[0].alternate[0].arch_filter);
}

#[test]
fn display_label() {
    let p = parse_one(PROVIDES_EXAMPLE);
    assert_eq!("python3-cffi-backend:amd64=1.11.5-1", p.display_string());
    let text = "Package: plain\nVersion: 2.0-1\nMaintainer: A <a@b>\nArchitecture: \nDescription: d\n";
    let q = parse_one(text);
    assert_eq!(0, q.arches.len());
    assert_eq!("plain=2.0-1", q.display_string());
}

#[test]
fn priority_tokens() {
    assert_eq!(Priority::Required, parse_priority("required").unwrap());
    assert_eq!(Priority::Source, parse_priority("source").unwrap());
    assert!(parse_priority("urgent").is_err());
}

#[test]
fn constraint_checked_for_any_text() {
    let cons = Constraint::new(ConstraintOperator::Gt, "1.0");
    assert_eq!(Some(true), cons.check_satisfied_by("2.0"));
    assert_eq!(Some(false), cons.check_satisfied_by("1.0"));
    // the underlying comparison is defined for ASCII text only
    assert_eq!(None, cons.check_satisfied_by("\u{e9}1"));
}

#[test]
fn version_operators() {
    let le = Constraint::new(ConstraintOperator::Le, "2.0");
    assert!(le.satisfied_by("2.0"));
    assert!(le.satisfied_by("1.9"));
    assert!(!le.satisfied_by("2.1"));
    let eq = Constraint::new(ConstraintOperator::Eq, "1:1.0-1");
    assert!(eq.satisfied_by("1:1.0-1"));
    assert!(!eq.satisfied_by("1:1.0-2"));
    // tilde sorts before the empty string
    let ge = Constraint::new(ConstraintOperator::Ge, "3.6~");
    assert!(ge.satisfied_by("3.6"));
    let lt = Constraint::new(ConstraintOperator::Lt, "3.6");
    assert!(lt.satisfied_by("3.6~"));
}

#[test]
fn record_errors() {
    // an architecture token outside the vocabulary fails the whole record
    let bad_arch = "Package: x\nVersion: 1\nMaintainer: A <a@b>\nArchitecture: sparc\nDescription: d\n";
    let mut paras = scan(bad_arch).unwrap();
    assert!(Package::parse(paras.remove(0)).is_err());

    // a missing required field fails the record
    let no_version = "Package: x\nMaintainer: A <a@b>\nArchitecture: amd64\nDescription: d\n";
    let mut paras = scan(no_version).unwrap();
    assert!(Package::parse(paras.remove(0)).is_err());

    // a line that neither names a field nor continues one fails the scan
    assert!(scan("no colon here\n").is_err());
}

#[test]
fn unparsed_kept() {
    let text = "Package: x\nVersion: 1\nMaintainer: A <a@b>\nArchitecture: amd64\nDescription: d\nX-Custom: kept\n";
    let p = parse_one(text);
    assert_eq!(1, p.unparsed.len());
    assert_eq!("X-Custom", p.unparsed[0].name);
    assert_eq!(vec!["kept".to_string()], p.unparsed[0].lines);
}

#[test]
fn built_record_parses() {
    let mut para = fapt::rfc822::Paragraph::new();
    for (name, value) in [
        ("Package", "handmade"),
        ("Version", "0.1"),
        ("Maintainer", "Hand <hand@example.org>"),
        ("Architecture", "all"),
        ("Description", "built by calls"),
    ] {
        para.push_field(fapt::rfc822::Field {
            name: name.to_string(),
            lines: vec![value.to_string()],
        });
    }
    let p = Package::parse(para).unwrap();
    assert_eq!("handmade", p.name);
    assert_eq!(vec![Arch::All], p.arches);
}

#[test]
fn errors_name_the_package() {
    let bad = "Package: broken\nVersion: 1\nMaintainer: A <a@b>\nArchitecture: sparc\nDescription: d\n";
    let mut paras = scan(bad).unwrap();
    match Package::parse(paras.remove(0)) {
        Err(ParseError::InPackage { name, cause }) => {
            assert_eq!("broken", name);
            assert!(matches!(*cause, ParseError::UnknownArch { .. }));
        }
        other => panic!("expected an attributed error, got {:?}", other),
    }
}

#[test]
fn multiple_paragraphs() {
    let text = "Package: x\nVersion: 1\nMaintainer: A <a@b>\nArchitecture: amd64\nDescription: d\n\nPackage: y\nVersion: 2\nMaintainer: B <b@c>\nArchitecture: all\nDescription: e\n";
    let paras = scan(text).unwrap();
    assert_eq!(2, paras.len());
    let p = Package::parse(paras[0].clone()).unwrap();
    let q = Package::parse(paras[1].clone()).unwrap();
    assert_eq!("x", p.name);
    assert_eq!("y", q.name);
    assert_eq!("2", q.version);
}
