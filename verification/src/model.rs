//! The data model: container identities, manifests and the messages of the
//! control protocol, each with its mathematical view.

use crate::text::{
    clone_pairs, clone_strings, concat3, decimal, decimal_string, is_digit, lemma_cut_at_first,
    lemma_cut_at_last, lemma_decimal_digits, lemma_decimal_injective,
};
use vstd::prelude::*;
use vstd::string::*;
use vstd::utf8::*;

verus! {

/// Label of a repository.
pub type RepositoryId = String;

/// Process id.
pub type Pid = u32;

/// A three-part semantic version.
#[derive(Clone, Copy, Debug, PartialEq, Eq, Hash, PartialOrd, Ord, Structural)]
pub struct Version {
    pub major: u64,
    pub minor: u64,
    pub patch: u64,
}

/// What the `semver` crate makes of a text: the three numbers of the
/// version, whether it has no pre-release tag and whether it has no
/// build metadata; nothing where the text is no semantic version.
pub uninterp spec fn semver_parts(text: Seq<char>) -> Option<(u64, u64, u64, bool, bool)>;

/// Parses `text` with `semver::Version::parse` and gives the fields
/// `major`, `minor` and `patch` of the result, and whether its fields
/// `pre` and `build` are empty, or nothing where the parser refuses the
/// text. The result depends on the text alone; which texts are versions
/// is the parser's to say.
#[verifier::external_body]
fn parse_semver(text: &str) -> (parts: Option<(u64, u64, u64, bool, bool)>)
    ensures
        parts == semver_parts(text@),
{
    match semver::Version::parse(text) {
        Ok(v) => Some((v.major, v.minor, v.patch, v.pre.is_empty(), v.build.is_empty())),
        Err(_) => None,
    }
}

impl Version {
    /// The three-part version that a parsed semantic version is: one
    /// with a pre-release tag or with build metadata is none.
    pub open spec fn of_parts(parts: Option<(u64, u64, u64, bool, bool)>) -> Option<Version> {
        match parts {
            Some((major, minor, patch, plain, bare)) => if plain && bare {
                Some(Version { major, minor, patch })
            } else {
                None
            },
            None => None,
        }
    }

    /// The three-part version that a parsed semantic version is.
    pub fn from_parts(parts: Option<(u64, u64, u64, bool, bool)>) -> (r: Option<Version>)
        ensures
            r == Version::of_parts(parts),
    {
        match parts {
            Some((major, minor, patch, plain, bare)) => {
                if plain && bare {
                    Some(Version { major, minor, patch })
                } else {
                    None
                }
            },
            None => None,
        }
    }

    /// The version that `text` denotes, if it is a semantic version of
    /// three parts and no more.
    pub fn parse(text: &str) -> (r: Option<Version>)
        ensures
            r == Version::of_parts(semver_parts(text@)),
    {
        Version::from_parts(parse_semver(text))
    }

    /// `major.minor.patch` in decimal notation.
    pub open spec fn text(self) -> Seq<char> {
        decimal(self.major as nat) + seq!['.'] + decimal(self.minor as nat) + seq!['.'] + decimal(
            self.patch as nat,
        )
    }

    pub fn new(major: u64, minor: u64, patch: u64) -> (v: Version)
        ensures
            v == (Version { major, minor, patch }),
    {
        Version { major, minor, patch }
    }

    /// Renders the version as `major.minor.patch`.
    pub fn to_string(&self) -> (s: String)
        ensures
            s@ == self.text(),
    {
        proof {
            reveal_strlit(".");
        }
        let mut s = decimal_string(self.major);
        s.append(".");
        let minor = decimal_string(self.minor);
        s.append(minor.as_str());
        s.append(".");
        let patch = decimal_string(self.patch);
        s.append(patch.as_str());
        assert(s@ =~= self.text());
        s
    }
}

/// The text of a version holds digits and dots only.
pub proof fn lemma_version_text(v: Version)
    ensures
        forall|i: int|
            0 <= i < v.text().len() ==> is_digit(#[trigger] v.text()[i]) || v.text()[i] == '.',
{
    lemma_decimal_digits(v.major as nat);
    lemma_decimal_digits(v.minor as nat);
    lemma_decimal_digits(v.patch as nat);
    let a = decimal(v.major as nat);
    let b = decimal(v.minor as nat);
    let c = decimal(v.patch as nat);
    assert forall|i: int| 0 <= i < v.text().len() implies is_digit(#[trigger] v.text()[i])
        || v.text()[i] == '.' by {
        if i < a.len() {
            assert(v.text()[i] == a[i]);
        } else if i == a.len() {
        } else if i < a.len() + 1 + b.len() {
            assert(v.text()[i] == b[i - a.len() - 1]);
        } else if i == a.len() + 1 + b.len() {
        } else {
            assert(v.text()[i] == c[i - a.len() - b.len() - 2]);
        }
    }
}

/// Two versions with the same text are the same version.
pub proof fn lemma_version_text_injective(v: Version, w: Version)
    requires
        v.text() == w.text(),
    ensures
        v == w,
{
    let a = decimal(v.major as nat);
    let b = decimal(v.minor as nat);
    let c = decimal(v.patch as nat);
    let x = decimal(w.major as nat);
    let y = decimal(w.minor as nat);
    let z = decimal(w.patch as nat);
    lemma_decimal_digits(v.major as nat);
    lemma_decimal_digits(v.minor as nat);
    lemma_decimal_digits(w.major as nat);
    lemma_decimal_digits(w.minor as nat);
    assert(!a.contains('.')) by {
        if a.contains('.') {
            let i = choose|i: int| 0 <= i < a.len() && a[i] == '.';
            assert(is_digit(a[i]));
        }
    }
    assert(!x.contains('.')) by {
        if x.contains('.') {
            let i = choose|i: int| 0 <= i < x.len() && x[i] == '.';
            assert(is_digit(x[i]));
        }
    }
    assert(!b.contains('.')) by {
        if b.contains('.') {
            let i = choose|i: int| 0 <= i < b.len() && b[i] == '.';
            assert(is_digit(b[i]));
        }
    }
    assert(!y.contains('.')) by {
        if y.contains('.') {
            let i = choose|i: int| 0 <= i < y.len() && y[i] == '.';
            assert(is_digit(y[i]));
        }
    }
    assert(v.text() =~= a + seq!['.'] + (b + seq!['.'] + c));
    assert(w.text() =~= x + seq!['.'] + (y + seq!['.'] + z));
    lemma_cut_at_first(a, b + seq!['.'] + c, x, y + seq!['.'] + z, '.');
    lemma_cut_at_first(b, c, y, z, '.');
    lemma_decimal_injective(v.major as nat, w.major as nat);
    lemma_decimal_injective(v.minor as nat, w.minor as nat);
    lemma_decimal_injective(v.patch as nat, w.patch as nat);
}

/// The identity of a container: its name and version.
#[derive(Debug, PartialEq, Eq, Hash)]
pub struct Container {
    pub name: String,
    pub version: Version,
}

/// Mathematical identity of a container.
pub struct ContainerId {
    pub name: Seq<char>,
    pub version: Version,
}

impl ContainerId {
    /// `name:major.minor.patch`, the name of the container's directories.
    pub open spec fn text(self) -> Seq<char> {
        self.name + seq![':'] + self.version.text()
    }

    /// `name-major.minor.patch.npk`, the name of the container's package
    /// file in its repository.
    pub open spec fn file_name(self) -> Seq<char> {
        self.name + seq!['-'] + self.version.text() + ".npk"@
    }
}

/// Two identities with the same text are the same identity: a
/// container's directories belong to it alone.
pub proof fn lemma_identity_text_injective(a: ContainerId, b: ContainerId)
    requires
        a.text() == b.text(),
    ensures
        a == b,
{
    lemma_version_text(a.version);
    lemma_version_text(b.version);
    let v = a.version.text();
    let w = b.version.text();
    assert(!v.contains(':')) by {
        if v.contains(':') {
            let i = choose|i: int| 0 <= i < v.len() && v[i] == ':';
            assert(is_digit(v[i]) || v[i] == '.');
        }
    }
    assert(!w.contains(':')) by {
        if w.contains(':') {
            let i = choose|i: int| 0 <= i < w.len() && w[i] == ':';
            assert(is_digit(w[i]) || w[i] == '.');
        }
    }
    lemma_cut_at_last(a.name, v, b.name, w, ':');
    lemma_version_text_injective(a.version, b.version);
}

impl View for Container {
    type V = ContainerId;

    open spec fn view(&self) -> ContainerId {
        ContainerId { name: self.name@, version: self.version }
    }
}

impl DeepView for Container {
    type V = ContainerId;

    open spec fn deep_view(&self) -> ContainerId {
        self@
    }
}

impl Clone for Container {
    fn clone(&self) -> (r: Container)
        ensures
            r == *self,
    {
        Container { name: self.name.clone(), version: self.version }
    }
}

impl Container {
    pub fn new(name: String, version: Version) -> (c: Container)
        ensures
            c == (Container { name, version }),
    {
        Container { name, version }
    }

    pub fn name(&self) -> (n: &String)
        ensures
            n == self.name,
    {
        &self.name
    }

    pub fn version(&self) -> (v: &Version)
        ensures
            *v == self.version,
    {
        &self.version
    }

    /// Whether `self` and `other` name the same container.
    pub fn is(&self, other: &Container) -> (r: bool)
        ensures
            r == (self@ == other@),
    {
        self.name == other.name && self.version == other.version
    }

    /// The name of the container's package file in its repository.
    pub fn file_name(&self) -> (s: String)
        ensures
            s@ == self@.file_name(),
    {
        proof {
            reveal_strlit("-");
        }
        let version = self.version.to_string();
        let mut s = concat3(self.name.as_str(), "-", version.as_str());
        s.append(".npk");
        assert(s@ =~= self@.file_name());
        s
    }

    /// Renders the identity as `name:major.minor.patch`.
    pub fn to_string(&self) -> (s: String)
        ensures
            s@ == self@.text(),
    {
        proof {
            reveal_strlit(":");
        }
        let version = self.version.to_string();
        let s = concat3(self.name.as_str(), ":", version.as_str());
        assert(s@ =~= self@.text());
        s
    }
}

/// Limits that the kernel's control groups put on a container.
#[derive(Clone, Copy, Debug, PartialEq, Eq, Structural)]
pub struct CGroups {
    /// Memory limit in bytes.
    pub memory: Option<u64>,
    /// CPU shares.
    pub cpu: Option<u32>,
}

/// One entry of a manifest's mount table.
#[derive(Debug, PartialEq, Eq)]
pub enum Mount {
    /// A directory of the host, bound into the container.
    Bind { host: String, writable: bool },
    /// The container's persistent data directory.
    Persist,
    /// A directory of a resource container.
    Resource { name: String, version: Version, dir: String },
    /// A memory file system of a fixed size in bytes.
    Tmpfs { size: u64 },
}

pub enum MountView {
    Bind { host: Seq<char>, writable: bool },
    Persist,
    Resource { name: Seq<char>, version: Version, dir: Seq<char> },
    Tmpfs { size: u64 },
}

impl View for Mount {
    type V = MountView;

    open spec fn view(&self) -> MountView {
        match self {
            Mount::Bind { host, writable } => MountView::Bind { host: host@, writable: *writable },
            Mount::Persist => MountView::Persist,
            Mount::Resource { name, version, dir } => MountView::Resource {
                name: name@,
                version: *version,
                dir: dir@,
            },
            Mount::Tmpfs { size } => MountView::Tmpfs { size: *size },
        }
    }
}

impl DeepView for Mount {
    type V = MountView;

    open spec fn deep_view(&self) -> MountView {
        self@
    }
}

impl Clone for Mount {
    fn clone(&self) -> (r: Mount)
        ensures
            r == *self,
    {
        match self {
            Mount::Bind { host, writable } => Mount::Bind {
                host: host.clone(),
                writable: *writable,
            },
            Mount::Persist => Mount::Persist,
            Mount::Resource { name, version, dir } => Mount::Resource {
                name: name.clone(),
                version: *version,
                dir: dir.clone(),
            },
            Mount::Tmpfs { size } => Mount::Tmpfs { size: *size },
        }
    }
}

/// The record that describes a package: what it is and how it is run.
#[derive(Debug, PartialEq, Eq)]
pub struct Manifest {
    pub name: String,
    pub version: Version,
    /// Path of the entry point. A container without one is a resource.
    pub init: Option<String>,
    pub args: Option<Vec<String>>,
    /// Environment variables, each a name and a value.
    pub env: Option<Vec<(String, String)>>,
    pub uid: Option<u32>,
    pub gid: Option<u32>,
    /// Names of the supplementary groups.
    pub suppl_groups: Option<Vec<String>>,
    /// Mount table: each entry a path inside the container and what is
    /// mounted there.
    pub mounts: Vec<(String, Mount)>,
    /// Allowed system calls, each with its argument rule.
    pub seccomp: Option<Vec<(String, String)>>,
    pub cgroups: Option<CGroups>,
}

pub struct ManifestView {
    pub name: Seq<char>,
    pub version: Version,
    pub init: Option<Seq<char>>,
    pub args: Option<Seq<Seq<char>>>,
    pub env: Option<Seq<(Seq<char>, Seq<char>)>>,
    pub uid: Option<u32>,
    pub gid: Option<u32>,
    pub suppl_groups: Option<Seq<Seq<char>>>,
    pub mounts: Seq<(Seq<char>, MountView)>,
    pub seccomp: Option<Seq<(Seq<char>, Seq<char>)>>,
    pub cgroups: Option<CGroups>,
}

/// Whether a character can stand in a name: it is visible and one of
/// the first 128.
pub open spec fn printable(c: char) -> bool {
    '!' <= c <= '~'
}

/// Whether a text can name a container: it is not empty and holds
/// printable characters only.
pub open spec fn valid_name(name: Seq<char>) -> bool {
    &&& name.len() > 0
    &&& forall|i: int| 0 <= i < name.len() ==> printable(#[trigger] name[i])
}

/// Whether no two entries of a table have the same key.
pub open spec fn keys_distinct<T>(entries: Seq<(Seq<char>, T)>) -> bool {
    forall|i: int, j: int|
        0 <= i < j < entries.len() ==> (#[trigger] entries[i]).0 != (#[trigger] entries[j]).0
}

/// Whether a text can name a container.
pub fn is_valid_name(name: &str) -> (r: bool)
    ensures
        r == valid_name(name@),
{
    if !name.is_ascii() {
        proof {
            let i = choose|i: int|
                0 <= i < name@.len() && !('\0' <= #[trigger] name@[i] <= '\u{7f}');
            assert(!printable(name@[i]));
        }
        return false;
    }
    let bytes = name.as_bytes();
    proof {
        is_ascii_chars_encode_utf8(name@);
    }
    if bytes.len() == 0 {
        return false;
    }
    let mut i: usize = 0;
    while i < bytes.len()
        invariant
            i <= bytes.len(),
            bytes.len() == name@.len(),
            forall|j: int| 0 <= j < bytes.len() ==> name@[j] as u8 == #[trigger] bytes@[j],
            forall|j: int| 0 <= j < name@.len() ==> '\0' <= #[trigger] name@[j] <= '\u{7f}',
            forall|j: int| 0 <= j < i ==> printable(#[trigger] name@[j]),
        decreases bytes.len() - i,
    {
        let b = bytes[i];
        proof {
            let c = name@[i as int];
            assert(c as u8 == bytes@[i as int]);
            assert('\0' <= c <= '\u{7f}');
        }
        if b < 0x21 || b > 0x7e {
            assert(!printable(name@[i as int]));
            return false;
        }
        i += 1;
    }
    assert(name@.len() > 0);
    true
}

/// Whether no two entries of a table have the same key.
pub fn distinct_keys<T: DeepView>(entries: &Vec<(String, T)>) -> (r: bool)
    ensures
        r == keys_distinct(entries.deep_view()),
{
    let mut j: usize = 0;
    while j < entries.len()
        invariant
            j <= entries.len(),
            forall|a: int, b: int|
                0 <= a < b < j ==> (#[trigger] entries.deep_view()[a]).0 != (
                #[trigger] entries.deep_view()[b]).0,
        decreases entries.len() - j,
    {
        let mut i: usize = 0;
        while i < j
            invariant
                i <= j,
                j < entries.len(),
                forall|a: int|
                    0 <= a < i ==> (#[trigger] entries.deep_view()[a]).0
                        != entries.deep_view()[j as int].0,
            decreases j - i,
        {
            if entries[i].0 == entries[j].0 {
                assert(entries.deep_view()[i as int].0 == entries.deep_view()[j as int].0);
                return false;
            }
            i += 1;
        }
        j += 1;
    }
    true
}

/// The containers that a mount table refers to as resources, in the order
/// of the table.
pub open spec fn resource_refs(mounts: Seq<(Seq<char>, MountView)>) -> Seq<ContainerId>
    decreases mounts.len(),
{
    if mounts.len() == 0 {
        Seq::empty()
    } else {
        let rest = resource_refs(mounts.drop_last());
        match mounts.last().1 {
            MountView::Resource { name, version, dir } => rest.push(ContainerId { name, version }),
            _ => rest,
        }
    }
}

impl ManifestView {
    /// The identity of the container that the manifest describes.
    pub open spec fn id(self) -> ContainerId {
        ContainerId { name: self.name, version: self.version }
    }

    /// A container without an entry point only provides files to others.
    pub open spec fn is_resource(self) -> bool {
        self.init is None
    }

    /// The resource containers that the manifest refers to.
    pub open spec fn resources(self) -> Seq<ContainerId> {
        resource_refs(self.mounts)
    }

    /// Whether the manifest can describe a package: its name is valid,
    /// and no place is mounted twice, no variable set twice and no
    /// system call ruled twice.
    pub open spec fn wf(self) -> bool {
        &&& valid_name(self.name)
        &&& keys_distinct(self.mounts)
        &&& (self.env matches Some(env) ==> keys_distinct(env))
        &&& (self.seccomp matches Some(rules) ==> keys_distinct(rules))
    }
}

impl View for Manifest {
    type V = ManifestView;

    open spec fn view(&self) -> ManifestView {
        ManifestView {
            name: self.name@,
            version: self.version,
            init: self.init.deep_view(),
            args: self.args.deep_view(),
            env: self.env.deep_view(),
            uid: self.uid,
            gid: self.gid,
            suppl_groups: self.suppl_groups.deep_view(),
            mounts: self.mounts.deep_view(),
            seccomp: self.seccomp.deep_view(),
            cgroups: self.cgroups,
        }
    }
}

impl DeepView for Manifest {
    type V = ManifestView;

    open spec fn deep_view(&self) -> ManifestView {
        self@
    }
}

fn clone_mounts(v: &Vec<(String, Mount)>) -> (r: Vec<(String, Mount)>)
    ensures
        r.deep_view() == v.deep_view(),
{
    let mut r: Vec<(String, Mount)> = Vec::new();
    let mut i: usize = 0;
    while i < v.len()
        invariant
            i <= v.len(),
            r.len() == i,
            forall|j: int| 0 <= j < i ==> r@[j].deep_view() == v@[j].deep_view(),
        decreases v.len() - i,
    {
        r.push((v[i].0.clone(), v[i].1.clone()));
        i += 1;
    }
    assert(r.deep_view() =~= v.deep_view());
    r
}

fn clone_opt_strings(v: &Option<Vec<String>>) -> (r: Option<Vec<String>>)
    ensures
        r.deep_view() == v.deep_view(),
{
    match v {
        Some(v) => Some(clone_strings(v)),
        None => None,
    }
}

fn clone_opt_pairs(v: &Option<Vec<(String, String)>>) -> (r: Option<Vec<(String, String)>>)
    ensures
        r.deep_view() == v.deep_view(),
{
    match v {
        Some(v) => Some(clone_pairs(v)),
        None => None,
    }
}

impl Clone for Manifest {
    fn clone(&self) -> (r: Manifest)
        ensures
            r@ == self@,
    {
        Manifest {
            name: self.name.clone(),
            version: self.version,
            init: self.init.clone(),
            args: clone_opt_strings(&self.args),
            env: clone_opt_pairs(&self.env),
            uid: self.uid,
            gid: self.gid,
            suppl_groups: clone_opt_strings(&self.suppl_groups),
            mounts: clone_mounts(&self.mounts),
            seccomp: clone_opt_pairs(&self.seccomp),
            cgroups: self.cgroups,
        }
    }
}

impl Manifest {
    /// The identity of the container that the manifest describes.
    pub fn container(&self) -> (c: Container)
        ensures
            c@ == self@.id(),
    {
        Container { name: self.name.clone(), version: self.version }
    }

    /// Whether the manifest can describe a package.
    pub fn is_valid(&self) -> (r: bool)
        ensures
            r == self@.wf(),
    {
        is_valid_name(self.name.as_str()) && distinct_keys(&self.mounts) && (match &self.env {
            Some(env) => distinct_keys(env),
            None => true,
        }) && (match &self.seccomp {
            Some(rules) => distinct_keys(rules),
            None => true,
        })
    }

    /// Whether the manifest describes a resource container.
    pub fn is_resource(&self) -> (r: bool)
        ensures
            r == self@.is_resource(),
    {
        self.init.is_none()
    }

    /// The resource containers that the mount table refers to, in the
    /// order of the table.
    pub fn resources(&self) -> (r: Vec<Container>)
        ensures
            r.deep_view() == self@.resources(),
    {
        let mut r: Vec<Container> = Vec::new();
        let mut i: usize = 0;
        while i < self.mounts.len()
            invariant
                i <= self.mounts.len(),
                r.deep_view() == resource_refs(self.mounts.deep_view().take(i as int)),
            decreases self.mounts.len() - i,
        {
            let ghost before = r.deep_view();
            assert(self.mounts.deep_view().take(i + 1).drop_last() =~= self.mounts.deep_view().take(
                i as int,
            ));
            match &self.mounts[i].1 {
                Mount::Resource { name, version, dir } => {
                    r.push(Container { name: name.clone(), version: *version });
                    assert(r.deep_view() =~= before.push(
                        ContainerId { name: name@, version: *version },
                    ));
                },
                _ => {},
            }
            i += 1;
        }
        assert(self.mounts.deep_view().take(i as int) =~= self.mounts.deep_view());
        r
    }
}

/// How a container's process ended.
#[derive(Clone, Copy, Debug, PartialEq, Eq, Structural)]
pub enum ExitStatus {
    /// The process exited with this code.
    Exit(i32),
    /// The process was ended by the signal of this number.
    Signaled(u32),
}

/// Memory of a process in bytes.
#[derive(Clone, Copy, Debug, PartialEq, Eq, Structural)]
pub struct Memory {
    pub size: u64,
    pub resident: u64,
    pub shared: u64,
    pub text: u64,
    pub data: u64,
}

/// Memory of a process in pages, as the kernel reports it.
#[derive(Clone, Copy, Debug, PartialEq, Eq, Structural)]
pub struct Statm {
    pub size: u64,
    pub resident: u64,
    pub share: u64,
    pub text: u64,
    pub data: u64,
}

impl Memory {
    /// The page counts of `statm` in bytes, if each fits in 64 bits.
    pub open spec fn of(statm: Statm, page_size: u64) -> Option<Memory> {
        if statm.size * page_size <= u64::MAX && statm.resident * page_size <= u64::MAX
            && statm.share * page_size <= u64::MAX && statm.text * page_size <= u64::MAX
            && statm.data * page_size <= u64::MAX {
            Some(
                Memory {
                    size: (statm.size * page_size) as u64,
                    resident: (statm.resident * page_size) as u64,
                    shared: (statm.share * page_size) as u64,
                    text: (statm.text * page_size) as u64,
                    data: (statm.data * page_size) as u64,
                },
            )
        } else {
            None
        }
    }

    /// Converts page counts into bytes. There is no result where a size
    /// does not fit in 64 bits.
    pub fn from_statm(statm: &Statm, page_size: u64) -> (r: Option<Memory>)
        ensures
            r == Memory::of(*statm, page_size),
    {
        let size = statm.size.checked_mul(page_size);
        let resident = statm.resident.checked_mul(page_size);
        let shared = statm.share.checked_mul(page_size);
        let text = statm.text.checked_mul(page_size);
        let data = statm.data.checked_mul(page_size);
        match (size, resident, shared, text, data) {
            (Some(size), Some(resident), Some(shared), Some(text), Some(data)) => Some(
                Memory { size, resident, shared, text, data },
            ),
            _ => None,
        }
    }
}

/// What a process uses of the machine.
#[derive(Clone, Copy, Debug, PartialEq, Eq, Structural)]
pub struct Resources {
    pub memory: Option<Memory>,
}

/// A running container's process.
#[derive(Clone, Copy, Debug, PartialEq, Eq, Structural)]
pub struct Process {
    pub pid: Pid,
    /// Nanoseconds since the process was started.
    pub uptime: u64,
    pub resources: Resources,
}

/// One line of the list of containers: an installed package and its state.
#[derive(Debug, PartialEq, Eq)]
pub struct ContainerData {
    pub container: Container,
    pub repository: RepositoryId,
    pub manifest: Manifest,
    pub process: Option<Process>,
    pub mounted: bool,
}

pub struct ContainerDataView {
    pub container: ContainerId,
    pub repository: Seq<char>,
    pub manifest: ManifestView,
    pub process: Option<Process>,
    pub mounted: bool,
}

impl View for ContainerData {
    type V = ContainerDataView;

    open spec fn view(&self) -> ContainerDataView {
        ContainerDataView {
            container: self.container@,
            repository: self.repository@,
            manifest: self.manifest@,
            process: self.process,
            mounted: self.mounted,
        }
    }
}

impl DeepView for ContainerData {
    type V = ContainerDataView;

    open spec fn deep_view(&self) -> ContainerDataView {
        self@
    }
}

impl ContainerData {
    pub fn new(
        container: Container,
        repository: RepositoryId,
        manifest: Manifest,
        process: Option<Process>,
        mounted: bool,
    ) -> (c: ContainerData)
        ensures
            c == (ContainerData { container, repository, manifest, process, mounted }),
    {
        ContainerData { container, repository, manifest, process, mounted }
    }

    /// Records what the kernel reports of the memory of the container's
    /// process. A container without a process has no memory to record.
    pub fn sample_memory(&mut self, statm: Option<Statm>, page_size: u64)
        ensures
            final(self).container == old(self).container,
            final(self).repository == old(self).repository,
            final(self).manifest == old(self).manifest,
            final(self).mounted == old(self).mounted,
            final(self).process == match old(self).process {
                Some(p) => Some(
                    Process {
                        pid: p.pid,
                        uptime: p.uptime,
                        resources: Resources {
                            memory: match statm {
                                Some(statm) => Memory::of(statm, page_size),
                                None => None,
                            },
                        },
                    },
                ),
                None => None,
            },
    {
        if let Some(p) = self.process {
            let memory = match statm {
                Some(statm) => Memory::from_statm(&statm, page_size),
                None => None,
            };
            self.process = Some(Process { pid: p.pid, uptime: p.uptime, resources: Resources { memory } });
        }
    }
}

/// What the runtime reports to a client, in the client's terms.
#[derive(Clone, Debug, PartialEq, Eq)]
pub enum Error {
    Configuration(String),
    InvalidContainer(Container),
    UmountBusy(Container),
    StartContainerStarted(Container),
    StartContainerResource(Container),
    StartContainerMissingResource(Container, Container),
    StartContainerFailed(Container, String),
    StopContainerNotStarted(Container),
    InvalidRepository(RepositoryId),
    InstallDuplicate(Container),
    Npk(String, String),
    NpkArchive(String),
    Process(String),
    Console(String),
    Cgroups(String),
    Mount(String),
    Key(String),
    Io(String),
    Os(String),
}

/// That a container was mounted, or why it was not.
#[derive(Clone, Debug, PartialEq, Eq)]
pub enum MountResult {
    Success,
    Failure(Error),
}

/// What the runtime tells its subscribers unasked.
#[derive(Clone, Debug, PartialEq, Eq)]
pub enum Notification {
    OutOfMemory(Container),
    Exit { container: Container, status: ExitStatus },
    Install(String, Version),
    Uninstalled(String, Version),
    Started(Container),
    Stopped(Container),
    Shutdown,
}

/// What a client asks of the runtime.
#[derive(Clone, Debug, PartialEq, Eq)]
pub enum Request {
    Containers,
    /// Install into this repository the package of this many bytes that
    /// follows the request on the stream.
    Install(RepositoryId, u64),
    Mount(Vec<Container>),
    Repositories,
    Shutdown,
    Start(Container),
    /// Stop the container; the number is the timeout in seconds.
    Stop(Container, u64),
    Umount(Container),
    Uninstall(Container),
}

/// The runtime's answer to a request.
#[derive(Debug, PartialEq, Eq)]
pub enum Response {
    Success,
    Containers(Vec<ContainerData>),
    Repositories(Vec<RepositoryId>),
    Mount(Vec<(Container, MountResult)>),
    Failure(Error),
}

/// The opening exchange of a connection.
#[derive(Clone, Debug, PartialEq, Eq)]
pub enum Connect {
    Connect { version: Version, subscribe_notifications: bool },
    ConnectAck,
}

/// What a message carries.
#[derive(Debug, PartialEq, Eq)]
pub enum Payload {
    Connect(Connect),
    Request(Request),
    Response(Response),
    Notification(Notification),
}

/// One frame of the control protocol.
#[derive(Debug, PartialEq, Eq)]
pub struct Message {
    pub id: String,
    pub payload: Payload,
}

/// The version of the control protocol that this library speaks.
pub fn version() -> (v: Version)
    ensures
        v == (Version { major: 0, minor: 0, patch: 3 }),
{
    Version { major: 0, minor: 0, patch: 3 }
}

impl Message {
    pub fn new(id: String, payload: Payload) -> (m: Message)
        ensures
            m == (Message { id, payload }),
    {
        Message { id, payload }
    }

    pub fn new_connect(id: String, connect: Connect) -> (m: Message)
        ensures
            m == (Message { id, payload: Payload::Connect(connect) }),
    {
        Message { id, payload: Payload::Connect(connect) }
    }

    pub fn new_request(id: String, request: Request) -> (m: Message)
        ensures
            m == (Message { id, payload: Payload::Request(request) }),
    {
        Message { id, payload: Payload::Request(request) }
    }

    pub fn new_response(id: String, response: Response) -> (m: Message)
        ensures
            m == (Message { id, payload: Payload::Response(response) }),
    {
        Message { id, payload: Payload::Response(response) }
    }

    pub fn new_notification(id: String, notification: Notification) -> (m: Message)
        ensures
            m == (Message { id, payload: Payload::Notification(notification) }),
    {
        Message { id, payload: Payload::Notification(notification) }
    }
}

} // verus!
