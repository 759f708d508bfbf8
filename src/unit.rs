//! The generated version unit: its constants, its two formatting functions,
//! the Rust source that declares them, and the run that assembles it.
use vstd::prelude::*;

use crate::error::VersionInfoError;
use crate::manifest::{manifest_outcome, read_infos};
use crate::revision::{hex, lemma_hex_prefix, revision_hash};
use crate::stamp::{build_stamp, local_now, lemma_stamp_order, CalendarTime};
use crate::text::{dec, digit_char, fixed_dec, push_dec, push_quoted, push_str, quoted};
use crate::version::{lemma_version_round_trip, parse_version, Version};

verus! {

/// What a unit holds, each string as its characters.
pub struct UnitModel {
    pub version: Seq<char>,
    pub version_major: u32,
    pub version_minor: u32,
    pub version_patch: u32,
    pub git_sha1: Seq<char>,
    pub build_number: Seq<char>,
    pub bin_name: Seq<char>,
}

/// The constants of one generation run; see `format` and `format_full` for
/// the two accessors.
pub struct VersionUnit {
    /// `VERSION`: the dotted version.
    pub version: String,
    /// `VERSION_MAJOR`.
    pub version_major: u32,
    /// `VERSION_MINOR`.
    pub version_minor: u32,
    /// `VERSION_PATCH`.
    pub version_patch: u32,
    /// `GIT_SHA1`: the full revision hash of HEAD.
    pub git_sha1: String,
    /// `BUILD_NUMBER`: the build stamp.
    pub build_number: String,
    /// `BIN_NAME`: the package name.
    pub bin_name: String,
}

impl View for VersionUnit {
    type V = UnitModel;

    open spec fn view(&self) -> UnitModel {
        UnitModel {
            version: self.version@,
            version_major: self.version_major,
            version_minor: self.version_minor,
            version_patch: self.version_patch,
            git_sha1: self.git_sha1@,
            build_number: self.build_number@,
            bin_name: self.bin_name@,
        }
    }
}

/// The short description: name, version, the first four characters of the
/// revision hash and the build stamp.
pub open spec fn short_text(u: UnitModel) -> Seq<char> {
    u.bin_name + " version "@ + u.version + " (git rev "@ + u.git_sha1.take(4) + "; build "@
        + u.build_number + ")"@
}

/// The long description, over three lines, with the full revision hash. The
/// closing parenthesis without an opening one is part of the format.
pub open spec fn full_text(u: UnitModel) -> Seq<char> {
    u.bin_name + " version "@ + u.version + "\ngit revision "@ + u.git_sha1 + "\nbuild "@
        + u.build_number + ")"@
}

/// The accessor functions of the generated source, which read the constants.
pub const FUNC_ITEMS_SOURCE: &'static str = "#[allow(dead_code)]\npub fn format() -> String {\n    [BIN_NAME, \" version \", VERSION, \" (git rev \", &GIT_SHA1[..4], \"; build \", BUILD_NUMBER, \")\"].concat()\n}\n#[allow(dead_code)]\npub fn format_full() -> String {\n    [BIN_NAME, \" version \", VERSION, \"\\ngit revision \", GIT_SHA1, \"\\nbuild \", BUILD_NUMBER, \")\"].concat()\n}\n";

/// The start of a constant item named `name` of type `ty`, up to its value.
pub open spec fn const_head(name: Seq<char>, ty: Seq<char>) -> Seq<char> {
    "#[allow(dead_code)]\npub const "@ + name + ": "@ + ty + " = "@
}

/// A string constant item.
pub open spec fn str_const(name: Seq<char>, v: Seq<char>) -> Seq<char> {
    const_head(name, "&'static str"@) + quoted(v) + ";\n"@
}

/// A `u32` constant item.
pub open spec fn u32_const(name: Seq<char>, n: u32) -> Seq<char> {
    const_head(name, "u32"@) + dec(n as nat) + ";\n"@
}

/// The seven constant items of a unit.
pub open spec fn const_items_text(u: UnitModel) -> Seq<char> {
    str_const("VERSION"@, u.version) + u32_const("VERSION_MAJOR"@, u.version_major) + u32_const(
        "VERSION_MINOR"@,
        u.version_minor,
    ) + u32_const("VERSION_PATCH"@, u.version_patch) + str_const("GIT_SHA1"@, u.git_sha1)
        + str_const("BUILD_NUMBER"@, u.build_number) + str_const("BIN_NAME"@, u.bin_name)
}

/// The Rust source that declares a unit: its constants, then its accessors.
pub open spec fn source_text(u: UnitModel) -> Seq<char> {
    const_items_text(u) + FUNC_ITEMS_SOURCE@
}

fn push_str_const(out: &mut String, name: &str, v: &str)
    ensures
        final(out)@ == old(out)@ + str_const(name@, v@),
{
    push_str(out, "#[allow(dead_code)]\npub const ");
    push_str(out, name);
    push_str(out, ": ");
    push_str(out, "&'static str");
    push_str(out, " = ");
    push_quoted(out, v);
    push_str(out, ";\n");
    assert(final(out)@ =~= old(out)@ + str_const(name@, v@));
}

fn push_u32_const(out: &mut String, name: &str, n: u32)
    ensures
        final(out)@ == old(out)@ + u32_const(name@, n),
{
    push_str(out, "#[allow(dead_code)]\npub const ");
    push_str(out, name);
    push_str(out, ": ");
    push_str(out, "u32");
    push_str(out, " = ");
    push_dec(out, n);
    push_str(out, ";\n");
    assert(final(out)@ =~= old(out)@ + u32_const(name@, n));
}

impl VersionUnit {
    /// `"{BIN_NAME} version {VERSION} (git rev {first 4 of GIT_SHA1}; build {BUILD_NUMBER})"`.
    pub fn format(&self) -> (r: String)
        requires
            self.git_sha1@.len() >= 4,
        ensures
            r@ == short_text(self@),
    {
        let mut out = String::new();
        push_str(&mut out, self.bin_name.as_str());
        push_str(&mut out, " version ");
        push_str(&mut out, self.version.as_str());
        push_str(&mut out, " (git rev ");
        push_str(&mut out, self.git_sha1.as_str().substring_char(0, 4));
        push_str(&mut out, "; build ");
        push_str(&mut out, self.build_number.as_str());
        push_str(&mut out, ")");
        assert(out@ =~= short_text(self@));
        out
    }

    /// `"{BIN_NAME} version {VERSION}\ngit revision {GIT_SHA1}\nbuild {BUILD_NUMBER})"`.
    pub fn format_full(&self) -> (r: String)
        ensures
            r@ == full_text(self@),
    {
        let mut out = String::new();
        push_str(&mut out, self.bin_name.as_str());
        push_str(&mut out, " version ");
        push_str(&mut out, self.version.as_str());
        push_str(&mut out, "\ngit revision ");
        push_str(&mut out, self.git_sha1.as_str());
        push_str(&mut out, "\nbuild ");
        push_str(&mut out, self.build_number.as_str());
        push_str(&mut out, ")");
        assert(out@ =~= full_text(self@));
        out
    }

    /// The Rust source of the seven constant items.
    pub fn const_items_source(&self) -> (r: String)
        ensures
            r@ == const_items_text(self@),
    {
        let mut out = String::new();
        push_str_const(&mut out, "VERSION", self.version.as_str());
        push_u32_const(&mut out, "VERSION_MAJOR", self.version_major);
        push_u32_const(&mut out, "VERSION_MINOR", self.version_minor);
        push_u32_const(&mut out, "VERSION_PATCH", self.version_patch);
        push_str_const(&mut out, "GIT_SHA1", self.git_sha1.as_str());
        push_str_const(&mut out, "BUILD_NUMBER", self.build_number.as_str());
        push_str_const(&mut out, "BIN_NAME", self.bin_name.as_str());
        assert(out@ =~= const_items_text(self@));
        out
    }

    /// The Rust source of the two accessor functions.
    pub fn func_items_source() -> (r: String)
        ensures
            r@ == FUNC_ITEMS_SOURCE@,
    {
        String::from_str(FUNC_ITEMS_SOURCE)
    }

    /// The Rust source that declares the whole unit.
    pub fn to_source(&self) -> (r: String)
        ensures
            r@ == source_text(self@),
    {
        let mut out = self.const_items_source();
        push_str(&mut out, FUNC_ITEMS_SOURCE);
        out
    }
}

/// The unit of a run whose sources gave package `name`, version `v`, commit
/// id `id` and time `now`.
pub open spec fn unit_of(name: Seq<char>, v: Version, id: Seq<u8>, now: CalendarTime) -> UnitModel {
    UnitModel {
        version: v.text(),
        version_major: v.major,
        version_minor: v.minor,
        version_patch: v.patch,
        git_sha1: hex(id),
        build_number: now.stamp(),
        bin_name: name,
    }
}

/// The outcome of a run on the manifest text (`None`: unreadable), the local
/// time and the commit id of HEAD (`None`: no repository or no commit). The
/// first source that fails decides the error, in the order manifest, version
/// string, clock, repository.
pub open spec fn generation_outcome(
    manifest: Option<Seq<char>>,
    now: CalendarTime,
    head: Option<Seq<u8>>,
) -> Result<UnitModel, VersionInfoError> {
    match manifest {
        None => Err(VersionInfoError::Io),
        Some(text) => match manifest_outcome(text) {
            Err(e) => Err(e),
            Ok((name, vs)) => match parse_version(vs) {
                None => Err(VersionInfoError::VersionFormat),
                Some(v) => if !now.wf() {
                    Err(VersionInfoError::Clock)
                } else {
                    match head {
                        None => Err(VersionInfoError::Repository),
                        Some(id) => Ok(unit_of(name, v, id, now)),
                    }
                },
            },
        },
    }
}

/// Whether `r` is the outcome `o`, comparing units by their view.
pub open spec fn unit_matches(
    r: Result<VersionUnit, VersionInfoError>,
    o: Result<UnitModel, VersionInfoError>,
) -> bool {
    match r {
        Ok(u) => o == Ok::<UnitModel, VersionInfoError>(u@),
        Err(e) => o == Err::<UnitModel, VersionInfoError>(e),
    }
}

/// The view of an optional string.
pub open spec fn opt_text(s: Option<&str>) -> Option<Seq<char>> {
    match s {
        Some(t) => Some(t@),
        None => None,
    }
}

/// The view of an optional byte slice.
pub open spec fn opt_bytes(b: Option<&[u8]>) -> Option<Seq<u8>> {
    match b {
        Some(t) => Some(t@),
        None => None,
    }
}

/// Assembles the unit from what the three sources gave: the manifest text
/// (`None` when it could not be read), the local time, and the commit id of
/// HEAD (`None` when the repository or HEAD could not be resolved).
pub fn assemble(manifest: Option<&str>, now: &CalendarTime, head: Option<&[u8]>) -> (r: Result<
    VersionUnit,
    VersionInfoError,
>)
    ensures
        unit_matches(r, generation_outcome(opt_text(manifest), *now, opt_bytes(head))),
{
    let text = match manifest {
        Some(t) => t,
        None => return Err(VersionInfoError::Io),
    };
    let info = match read_infos(text) {
        Ok(i) => i,
        Err(e) => return Err(e),
    };
    let version = match Version::new(info.version.as_str()) {
        Ok(v) => v,
        Err(e) => return Err(e),
    };
    if !now.is_valid() {
        return Err(VersionInfoError::Clock);
    }
    let build_number = build_stamp(now);
    let id = match head {
        Some(id) => id,
        None => return Err(VersionInfoError::Repository),
    };
    let git_sha1 = revision_hash(id);
    Ok(
        VersionUnit {
            version: version.as_string(),
            version_major: version.major,
            version_minor: version.minor,
            version_patch: version.patch,
            git_sha1,
            build_number,
            bin_name: info.name,
        },
    )
}

/// Runs generation at the current local time on the manifest text and the
/// commit id of HEAD; the outcome is that of `assemble` at some valid time.
pub fn expand_version(manifest: Option<&str>, head: Option<&[u8]>) -> (r: Result<
    VersionUnit,
    VersionInfoError,
>)
    ensures
        exists|now: CalendarTime|
            unit_matches(r, #[trigger] generation_outcome(opt_text(manifest), now, opt_bytes(head))),
{
    let now = local_now();
    assemble(manifest, &now, head)
}

/// A run does not depend on the time but through its build stamp: on the same
/// inputs, two runs at valid times agree on success and on every constant but
/// `BUILD_NUMBER`, and two runs in the same second give the same unit.
pub proof fn lemma_generation_repeatable(
    manifest: Option<Seq<char>>,
    head: Option<Seq<u8>>,
    t1: CalendarTime,
    t2: CalendarTime,
)
    requires
        t1.wf(),
        t2.wf(),
    ensures
        generation_outcome(manifest, t1, head) is Ok <==> generation_outcome(manifest, t2, head) is Ok,
        generation_outcome(manifest, t1, head) matches Ok(u1) ==> {
            let u2 = generation_outcome(manifest, t2, head)->Ok_0;
            &&& u1.version == u2.version
            &&& u1.version_major == u2.version_major
            &&& u1.version_minor == u2.version_minor
            &&& u1.version_patch == u2.version_patch
            &&& u1.git_sha1 == u2.git_sha1
            &&& u1.bin_name == u2.bin_name
        },
        t1.fields() == t2.fields() ==> generation_outcome(manifest, t1, head) == generation_outcome(
            manifest,
            t2,
            head,
        ),
{
    lemma_stamp_order(t1, t2);
}

/// A manifest declaring package `demo` at version `1.2.3`, a HEAD whose id
/// begins with the bytes `ab cd`, and the local time 2024-01-15 09:30:00 give
/// a unit whose short and long descriptions are exactly these texts.
pub proof fn lemma_demo_descriptions(text: Seq<char>, id: Seq<u8>)
    requires
        manifest_outcome(text) == Ok::<(Seq<char>, Seq<char>), VersionInfoError>(
            ("demo"@, "1.2.3"@),
        ),
        id.len() >= 2,
        id[0] == 0xab,
        id[1] == 0xcd,
    ensures
        ({
            let now = CalendarTime {
                tm_year: 124,
                tm_mon: 0,
                tm_mday: 15,
                tm_hour: 9,
                tm_min: 30,
                tm_sec: 0,
            };
            let o = generation_outcome(Some(text), now, Some(id));
            &&& o is Ok
            &&& short_text(o->Ok_0) == "demo version 1.2.3 (git rev abcd; build 20240115093000)"@
            &&& full_text(o->Ok_0) == "demo version 1.2.3\ngit revision "@ + hex(id)
                + "\nbuild 20240115093000)"@
        }),
{
    let now = CalendarTime { tm_year: 124, tm_mon: 0, tm_mday: 15, tm_hour: 9, tm_min: 30, tm_sec: 0 };
    reveal_strlit("1.2.3");
    reveal_strlit("demo");
    reveal_strlit(" version ");
    reveal_strlit(" (git rev ");
    reveal_strlit("; build ");
    reveal_strlit(")");
    reveal_strlit("\ngit revision ");
    reveal_strlit("\nbuild ");
    reveal_strlit("demo version 1.2.3 (git rev abcd; build 20240115093000)");
    reveal_strlit("demo version 1.2.3\ngit revision ");
    reveal_strlit("\nbuild 20240115093000)");
    lemma_version_round_trip(1, 2, 3);
    assert(dec(1) =~= seq!['1']);
    assert(dec(2) =~= seq!['2']);
    assert(dec(3) =~= seq!['3']);
    let v = Version { major: 1, minor: 2, patch: 3 };
    assert(v.text() =~= "1.2.3"@);
    assert(parse_version("1.2.3"@) == Some(v));
    reveal_with_fuel(fixed_dec, 5);
    assert(now.stamp() =~= seq!['2', '0', '2', '4', '0', '1', '1', '5', '0', '9', '3', '0', '0', '0']);
    lemma_hex_prefix(id, 2);
    let p = id.take(2);
    assert(p.drop_last() =~= seq![0xabu8]);
    assert(p.drop_last().drop_last() =~= Seq::<u8>::empty());
    assert(p.last() == 0xcdu8);
    assert(hex(p.drop_last().drop_last()) =~= Seq::<char>::empty());
    assert(hex(p.drop_last()) =~= seq![digit_char(10), digit_char(11)]);
    assert(hex(p) =~= seq![digit_char(10), digit_char(11), digit_char(12), digit_char(13)]);
    assert(hex(id).take(4) =~= seq!['a', 'b', 'c', 'd']);
    let u = unit_of("demo"@, v, id, now);
    assert(short_text(u) =~= "demo version 1.2.3 (git rev abcd; build 20240115093000)"@);
    assert(full_text(u) =~= "demo version 1.2.3\ngit revision "@ + hex(id) + "\nbuild 20240115093000)"@);
}

} // verus!
