use vstd::prelude::*;
use vstd::string::*;
use crate::command::{texts, Command, ProcessOutcome};
use crate::error::{failure_of, BuildError, ConfigFault, Stage};
use crate::file::{CompileStep, FileStamp, InputFile, StampedObject};
use crate::path::{
    below, extension, join, joined, lemma_below_decides, lemma_dot_at, lemma_middle, lemma_name_start,
    lemma_with_ext_behind, relative_file, stem, stem_len, strip_prefix, with_ext, with_extension,
};

verus! {

/// The operating system a build runs on.
#[derive(Debug, Clone, Copy, PartialEq, Eq, Structural)]
pub enum Os {
    Window,
    Linux,
    MacOs,
    UnixLike,
}

/// The operating system that a host name such as `"linux"` stands for.
pub open spec fn os_named(name: Seq<char>) -> Option<Os> {
    if name == "windows"@ {
        Some(Os::Window)
    } else if name == "linux"@ {
        Some(Os::Linux)
    } else if name == "macos"@ {
        Some(Os::MacOs)
    } else {
        None
    }
}

/// Whether two strings hold the same characters.
pub fn same_text(a: &str, b: &str) -> (same: bool)
    ensures
        same == (a@ == b@),
{
    let n = a.unicode_len();
    if n != b.unicode_len() {
        return false;
    }
    let mut i: usize = 0;
    while i < n
        invariant
            n == a@.len(),
            n == b@.len(),
            i <= n,
            forall|j: int| 0 <= j < i ==> a@[j] == b@[j],
        decreases n - i,
    {
        if a.get_char(i) != b.get_char(i) {
            return false;
        }
        i += 1;
    }
    assert(a@ =~= b@);
    true
}

impl Os {
    /// The host system, from the name the platform reports for itself
    /// (`"windows"`, `"linux"`, `"macos"`); `None` for any other name.
    pub fn current(name: &str) -> (os: Option<Os>)
        ensures
            os == os_named(name@),
    {
        if same_text(name, "windows") {
            Some(Os::Window)
        } else if same_text(name, "linux") {
            Some(Os::Linux)
        } else if same_text(name, "macos") {
            Some(Os::MacOs)
        } else {
            None
        }
    }
}

/// How hard the compiler is asked to optimise. A target carries it; the
/// command lines do not depend on it.
#[derive(Debug, Clone, Copy, PartialEq, Eq, Structural)]
pub enum OptimizationLevel {
    Debug,
    Release,
    O0,
    O1,
    O2,
    O3,
    OSize,
}

/// A system and processor that a binary can be made for.
#[derive(Debug, Clone, Copy, PartialEq, Eq, Structural)]
pub enum Target {
    WindowX86,
    WindowsX64,
    LinuxX86,
    LinuxX64,
}

/// What a target links into.
#[derive(Debug, Clone, Copy, PartialEq, Eq, Structural)]
pub enum BinaryType {
    Executable,
    DynLib,
    StaticLib,
}

/// A family of compiler and linker executables with its flag spellings.
#[derive(Debug, PartialEq, Eq)]
pub enum ToolChain {
    Gcc,
    Clang,
    Msvc,
    Zig,
    Custom { compiler: String, linker: String },
}

impl Clone for ToolChain {
    fn clone(&self) -> (copy: Self)
        ensures
            copy == *self,
    {
        match self {
            ToolChain::Gcc => ToolChain::Gcc,
            ToolChain::Clang => ToolChain::Clang,
            ToolChain::Msvc => ToolChain::Msvc,
            ToolChain::Zig => ToolChain::Zig,
            ToolChain::Custom { compiler, linker } => ToolChain::Custom {
                compiler: compiler.clone(),
                linker: linker.clone(),
            },
        }
    }
}

impl ToolChain {
    /// The family spells its flags the MSVC way (`/c`, `/Fo`, `/OUT:`).
    pub open spec fn msvc(&self) -> bool {
        *self is Msvc
    }

    /// The driver wants the subcommand `cc` before every other argument.
    pub open spec fn zig(&self) -> bool {
        *self is Zig
    }

    /// Whether the family spells its flags the MSVC way.
    pub fn is_msvc(&self) -> (yes: bool)
        ensures
            yes == self.msvc(),
    {
        match self {
            ToolChain::Msvc => true,
            _ => false,
        }
    }

    /// Whether the driver wants `cc` before every other argument.
    pub fn is_zig(&self) -> (yes: bool)
        ensures
            yes == self.zig(),
    {
        match self {
            ToolChain::Zig => true,
            _ => false,
        }
    }

    /// The toolchain that is at home on `os`.
    pub open spec fn default_on(os: Os) -> ToolChain {
        match os {
            Os::Window => ToolChain::Msvc,
            Os::Linux => ToolChain::Gcc,
            _ => ToolChain::Clang,
        }
    }

    /// The toolchain a host system uses when a target names none.
    pub fn platform_default(os: &Os) -> (chain: ToolChain)
        requires
            *os != Os::UnixLike,
        ensures
            chain == Self::default_on(*os),
    {
        match os {
            Os::Window => ToolChain::Msvc,
            Os::Linux => ToolChain::Gcc,
            _ => ToolChain::Clang,
        }
    }

    pub open spec fn obj_ext(&self) -> Seq<char> {
        if self.msvc() { "obj"@ } else { "o"@ }
    }

    /// The extension of the object files that the compiler writes.
    pub fn obj_file_ext(&self) -> (ext: &str)
        ensures
            ext@ == self.obj_ext(),
    {
        match self {
            ToolChain::Msvc => "obj",
            _ => "o",
        }
    }

    pub open spec fn input_flag(&self) -> Seq<char> {
        if self.msvc() { "/c"@ } else { "-c"@ }
    }

    /// The flag that stands before the source file.
    pub fn compiler_input_flag(&self) -> (flag: &str)
        ensures
            flag@ == self.input_flag(),
    {
        match self {
            ToolChain::Msvc => "/c",
            _ => "-c",
        }
    }

    pub open spec fn output_flag(&self) -> Seq<char> {
        if self.msvc() { "/Fo"@ } else { "-o"@ }
    }

    /// The flag that names the object file: on MSVC a prefix of the
    /// path, elsewhere an argument of its own before it.
    pub fn compiler_output_flag(&self) -> (flag: &str)
        ensures
            flag@ == self.output_flag(),
    {
        match self {
            ToolChain::Msvc => "/Fo",
            _ => "-o",
        }
    }

    pub open spec fn include_flag(&self) -> Seq<char> {
        if self.msvc() { "/I"@ } else { "-I"@ }
    }

    /// The flag that stands before an include directory.
    pub fn compiler_include_flag(&self) -> (flag: &str)
        ensures
            flag@ == self.include_flag(),
    {
        match self {
            ToolChain::Msvc => "/I",
            _ => "-I",
        }
    }

    pub open spec fn warning_flag(&self) -> Seq<char> {
        if self.msvc() { ""@ } else { "-W"@ }
    }

    /// The prefix of a warning that is turned on; empty on MSVC.
    pub fn compiler_warning_flag(&self) -> (flag: &str)
        ensures
            flag@ == self.warning_flag(),
    {
        match self {
            ToolChain::Msvc => "",
            _ => "-W",
        }
    }

    pub open spec fn no_warning_flag(&self) -> Seq<char> {
        if self.msvc() { ""@ } else { "-Wno-"@ }
    }

    /// The prefix of a warning that is turned off; empty on MSVC.
    pub fn compiler_no_warning_flag(&self) -> (flag: &str)
        ensures
            flag@ == self.no_warning_flag(),
    {
        match self {
            ToolChain::Msvc => "",
            _ => "-Wno-",
        }
    }

    pub open spec fn compiler_name(&self) -> Seq<char> {
        match *self {
            ToolChain::Gcc => "gcc"@,
            ToolChain::Clang => "clang"@,
            ToolChain::Msvc => "cl.exe"@,
            ToolChain::Zig => "zig"@,
            ToolChain::Custom { compiler, .. } => compiler@,
        }
    }

    /// The compiler's executable.
    pub fn compiler(&self) -> (name: &str)
        ensures
            name@ == self.compiler_name(),
    {
        match self {
            ToolChain::Gcc => "gcc",
            ToolChain::Clang => "clang",
            ToolChain::Msvc => "cl.exe",
            ToolChain::Zig => "zig",
            ToolChain::Custom { compiler, .. } => compiler.as_str(),
        }
    }

    /// The family has a linker, or a librarian, for this kind of binary.
    pub open spec fn links(&self, typ: BinaryType) -> bool {
        match *self {
            ToolChain::Custom { .. } => true,
            ToolChain::Msvc => typ != BinaryType::DynLib,
            _ => typ == BinaryType::Executable,
        }
    }

    /// Whether the family can link a binary of this kind.
    pub fn can_link(&self, typ: &BinaryType) -> (yes: bool)
        ensures
            yes == self.links(*typ),
    {
        match self {
            ToolChain::Custom { .. } => true,
            ToolChain::Msvc => match typ {
                BinaryType::DynLib => false,
                _ => true,
            },
            _ => match typ {
                BinaryType::Executable => true,
                _ => false,
            },
        }
    }

    pub open spec fn linker_name(&self, typ: BinaryType) -> Seq<char> {
        match *self {
            ToolChain::Gcc => "gcc"@,
            ToolChain::Clang => "clang"@,
            ToolChain::Msvc => if typ == BinaryType::StaticLib { "lib.exe"@ } else { "link.exe"@ },
            ToolChain::Zig => "zig"@,
            ToolChain::Custom { linker, .. } => linker@,
        }
    }

    /// The executable that links a binary of this kind: on MSVC the
    /// librarian for a static library, the linker for an executable.
    pub fn linker(&self, bin_type: &BinaryType) -> (name: &str)
        requires
            self.links(*bin_type),
        ensures
            name@ == self.linker_name(*bin_type),
    {
        match self {
            ToolChain::Gcc => "gcc",
            ToolChain::Clang => "clang",
            ToolChain::Msvc => match bin_type {
                BinaryType::StaticLib => "lib.exe",
                _ => "link.exe",
            },
            ToolChain::Zig => "zig",
            ToolChain::Custom { linker, .. } => linker.as_str(),
        }
    }

    pub open spec fn link_output_flag(&self) -> Seq<char> {
        if self.msvc() { "/OUT:"@ } else { "-o"@ }
    }

    /// The flag that names the artifact: on MSVC a prefix of the path,
    /// elsewhere an argument of its own before it.
    pub fn linker_output_flag(&self) -> (flag: &str)
        ensures
            flag@ == self.link_output_flag(),
    {
        match self {
            ToolChain::Msvc => "/OUT:",
            _ => "-o",
        }
    }

    /// The flag that names a library to link; MSVC has none.
    pub fn linker_link_lib(&self) -> (flag: &str)
        requires
            !self.msvc(),
        ensures
            flag@ == "-l"@,
    {
        "-l"
    }

    /// The flag that names a directory to search for libraries; MSVC has none.
    pub fn linker_link_dir_flag(&self) -> (flag: &str)
        requires
            !self.msvc(),
        ensures
            flag@ == "-L"@,
    {
        "-L"
    }
}

/// A warning that a target turns on or off.
#[derive(Debug, Clone, Copy, PartialEq, Eq, Structural)]
pub enum WarningFlag {
    Error,
    Pedantic,
    Extra,
    All,
    DeprecatedDeclarations,
}

impl WarningFlag {
    /// What follows the toolchain's warning prefix: nothing on MSVC.
    pub open spec fn suffix(&self, tool_chain: &ToolChain) -> Seq<char> {
        if tool_chain.msvc() {
            ""@
        } else {
            match *self {
                WarningFlag::Error => "error"@,
                WarningFlag::Pedantic => "pedantic"@,
                WarningFlag::Extra => "extra"@,
                WarningFlag::All => "all"@,
                WarningFlag::DeprecatedDeclarations => "deprecated-declarations"@,
            }
        }
    }

    /// The warning's name as the toolchain spells it behind its prefix.
    pub fn to_string(&self, tool_chain: &ToolChain) -> (text: &'static str)
        ensures
            text@ == self.suffix(tool_chain),
    {
        if tool_chain.is_msvc() {
            return "";
        }
        match self {
            WarningFlag::Error => "error",
            WarningFlag::Pedantic => "pedantic",
            WarningFlag::Extra => "extra",
            WarningFlag::All => "all",
            WarningFlag::DeprecatedDeclarations => "deprecated-declarations",
        }
    }
}

/// The flags that every file of a target is compiled with.
#[derive(Debug)]
pub struct CompilerFlags {
    pub warnings: Vec<WarningFlag>,
    pub no_warnings: Vec<WarningFlag>,
    pub custom: Vec<String>,
}

/// A list with the same strings in the same order.
fn copy_texts(list: &Vec<String>) -> (copy: Vec<String>)
    ensures
        copy@ == list@,
{
    let mut copy: Vec<String> = Vec::new();
    let mut i: usize = 0;
    while i < list.len()
        invariant
            i <= list.len(),
            copy@ == list@.take(i as int),
        decreases list.len() - i,
    {
        copy.push(list[i].clone());
        assert(copy@ =~= list@.take(i + 1));
        i += 1;
    }
    assert(list@.take(i as int) =~= list@);
    copy
}

/// A list with the same warnings in the same order.
fn copy_warnings(list: &Vec<WarningFlag>) -> (copy: Vec<WarningFlag>)
    ensures
        copy@ == list@,
{
    let mut copy: Vec<WarningFlag> = Vec::new();
    let mut i: usize = 0;
    while i < list.len()
        invariant
            i <= list.len(),
            copy@ == list@.take(i as int),
        decreases list.len() - i,
    {
        copy.push(list[i]);
        assert(copy@ =~= list@.take(i + 1));
        i += 1;
    }
    assert(list@.take(i as int) =~= list@);
    copy
}

impl CompilerFlags {
    /// Both hold the same flags in the same order.
    pub open spec fn same(&self, other: &CompilerFlags) -> bool {
        &&& self.warnings@ == other.warnings@
        &&& self.no_warnings@ == other.no_warnings@
        &&& self.custom@ == other.custom@
    }
}

impl Clone for CompilerFlags {
    fn clone(&self) -> (copy: Self)
        ensures
            copy.same(self),
    {
        CompilerFlags {
            warnings: copy_warnings(&self.warnings),
            no_warnings: copy_warnings(&self.no_warnings),
            custom: copy_texts(&self.custom),
        }
    }
}

impl Default for CompilerFlags {
    fn default() -> (flags: Self)
        ensures
            flags.warnings@.len() == 0,
            flags.no_warnings@.len() == 0,
            flags.custom@.len() == 0,
    {
        CompilerFlags { warnings: Vec::new(), no_warnings: Vec::new(), custom: Vec::new() }
    }
}

/// The directory the sources lie in when a target names none.
pub fn default_src() -> (dir: String)
    ensures
        dir@ == "src"@,
{
    String::from_str("src")
}

/// The kind of binary a target links into when it names none.
pub fn default_binary_type() -> (typ: BinaryType)
    ensures
        typ == BinaryType::Executable,
{
    BinaryType::Executable
}

/// The artifact's path when a target names none.
pub fn default_output() -> (path: String)
    ensures
        path@ == "a"@,
{
    String::from_str("a")
}

/// A path found below a directory that a target lists.
#[derive(Debug)]
pub struct Descendant {
    pub path: String,
    pub is_dir: bool,
}

/// One path of a target's file list as the file system shows it: a file,
/// or a directory with everything found below it, at any depth.
#[derive(Debug)]
pub struct Listed {
    pub path: String,
    pub is_dir: bool,
    pub descendants: Vec<Descendant>,
}

/// The paths among `list` that are not directories, in order.
pub open spec fn files_among(list: Seq<Descendant>) -> Seq<Seq<char>>
    decreases list.len(),
{
    if list.len() == 0 {
        Seq::empty()
    } else {
        files_among(list.drop_last()) + if list.last().is_dir {
            Seq::<Seq<char>>::empty()
        } else {
            seq![list.last().path@]
        }
    }
}

/// The source files that one listed path stands for.
pub open spec fn files_of(entry: Listed) -> Seq<Seq<char>> {
    if entry.is_dir {
        files_among(entry.descendants@)
    } else {
        seq![entry.path@]
    }
}

/// The extension of the artifact where the host system wants one.
pub open spec fn binary_ext(typ: BinaryType) -> Seq<char> {
    match typ {
        BinaryType::Executable => "exe"@,
        BinaryType::DynLib => "dll"@,
        BinaryType::StaticLib => "lib"@,
    }
}

/// The directory below which the object files are kept.
pub open spec fn object_dir() -> Seq<char> {
    joined(".cargoc"@, "obj"@)
}

/// The object file of `source`: its path below `src_dir`, or the whole
/// path where it does not lie there, placed below the object directory,
/// with the extension `ext`.
pub open spec fn object_of(source: Seq<char>, src_dir: Seq<char>, ext: Seq<char>) -> Seq<char> {
    let rel = match below(source, src_dir) {
        Some(rest) => rest,
        None => source,
    };
    with_ext(joined(object_dir(), rel), ext)
}

/// What is to be done for a target once its compile jobs are done and
/// the artifact's staleness is decided.
#[derive(Debug, PartialEq, Eq)]
pub enum LinkStep {
    /// The artifact at this path is up to date: no process is run.
    Skipped(String),
    /// The linker is to be run with this command.
    Linking(Command),
}

/// The paths of the objects, in order.
pub open spec fn object_args(objects: Seq<StampedObject>) -> Seq<Seq<char>> {
    Seq::new(objects.len(), |i: int| objects[i].file.path@)
}

/// One argument per entry: the flag with the entry directly behind it.
pub open spec fn prefixed(flag: Seq<char>, list: Seq<String>) -> Seq<Seq<char>> {
    Seq::new(list.len(), |i: int| flag + list[i]@)
}

/// The failure of the first compile job, in the order given, that failed.
pub open spec fn first_failure(results: Seq<Result<StampedObject, BuildError>>) -> Option<BuildError>
    decreases results.len(),
{
    if results.len() == 0 {
        None
    } else {
        match first_failure(results.drop_last()) {
            Some(e) => Some(e),
            None => match results.last() {
                Err(e) => Some(e),
                Ok(_) => None,
            },
        }
    }
}

/// The objects of compile jobs that all succeeded, in order.
pub open spec fn successes(results: Seq<Result<StampedObject, BuildError>>) -> Seq<StampedObject> {
    Seq::new(results.len(), |i: int| results[i]->Ok_0)
}

/// `first_failure` finds a failure exactly when some job failed, and the
/// one it finds has only successes before it.
pub proof fn lemma_first_failure(results: Seq<Result<StampedObject, BuildError>>)
    ensures
        first_failure(results) is None <==> forall|i: int| 0 <= i < results.len() ==> results[i] is Ok,
        first_failure(results) is Some ==> exists|k: int|
            0 <= k < results.len() && results[k] == Err::<StampedObject, BuildError>(
                first_failure(results)->Some_0,
            ) && forall|i: int| 0 <= i < k ==> results[i] is Ok,
    decreases results.len(),
{
    if results.len() > 0 {
        let front = results.drop_last();
        lemma_first_failure(front);
        assert forall|i: int| 0 <= i < front.len() implies front[i] == results[i] by {}
        if first_failure(front) is Some {
            let k = choose|k: int|
                0 <= k < front.len() && front[k] == Err::<StampedObject, BuildError>(
                    first_failure(front)->Some_0,
                ) && forall|i: int| 0 <= i < k ==> front[i] is Ok;
            assert(results[k] == front[k]);
            assert(forall|i: int| 0 <= i < k ==> results[i] == front[i]);
            assert(!(results[k] is Ok));
        } else if results.last() is Err {
            let k = results.len() - 1;
            assert(results[k] == Err::<StampedObject, BuildError>(first_failure(results)->Some_0));
            assert(!(results[k] is Ok));
        } else {
            assert forall|i: int| 0 <= i < results.len() implies results[i] is Ok by {
                if i < front.len() {
                    assert(front[i] is Ok);
                }
            }
        }
    }
}

/// The object directory is `.cargoc/obj`.
pub proof fn lemma_object_dir()
    ensures
        object_dir() == ".cargoc/obj"@,
        object_dir().len() == 11,
        object_dir().last() == 'j',
{
    reveal_strlit(".cargoc");
    reveal_strlit("obj");
    reveal_strlit(".cargoc/obj");
    assert(object_dir() =~= ".cargoc/obj"@);
}

/// The object file of a relative source path: the object directory, the
/// path without its extension, and the object extension.
pub proof fn lemma_object_of_relative(rel: Seq<char>, ext: Seq<char>)
    requires
        relative_file(rel),
    ensures
        with_ext(joined(object_dir(), rel), ext) == object_dir() + seq!['/'] + stem(rel) + if ext.len()
            == 0 {
            Seq::<char>::empty()
        } else {
            seq!['.'] + ext
        },
{
    lemma_object_dir();
    let dir = object_dir() + seq!['/'];
    assert(joined(object_dir(), rel) =~= dir + rel);
    lemma_with_ext_behind(dir, rel, ext);
    assert(dir + with_ext(rel, ext) =~= object_dir() + seq!['/'] + stem(rel) + if ext.len() == 0 {
        Seq::<char>::empty()
    } else {
        seq!['.'] + ext
    });
}

/// Two source files below the same source root share an object file
/// exactly when their paths below the root are the same up to the
/// extension.
pub proof fn lemma_object_paths_collide(p: Seq<char>, q: Seq<char>, src_dir: Seq<char>, ext: Seq<char>)
    requires
        below(p, src_dir) is Some,
        below(q, src_dir) is Some,
        relative_file(below(p, src_dir)->Some_0),
        relative_file(below(q, src_dir)->Some_0),
    ensures
        object_of(p, src_dir, ext) == object_of(q, src_dir, ext) <==> stem(below(p, src_dir)->Some_0)
            == stem(below(q, src_dir)->Some_0),
{
    let rp = below(p, src_dir)->Some_0;
    let rq = below(q, src_dir)->Some_0;
    lemma_object_of_relative(rp, ext);
    lemma_object_of_relative(rq, ext);
    let back = if ext.len() == 0 {
        Seq::<char>::empty()
    } else {
        seq!['.'] + ext
    };
    if object_of(p, src_dir, ext) == object_of(q, src_dir, ext) {
        lemma_middle(object_dir() + seq!['/'], stem(rp), stem(rq), back);
    }
}

/// Two distinct source files below the same source root that carry the
/// same extension never share an object file.
pub proof fn lemma_object_paths_distinct(p: Seq<char>, q: Seq<char>, src_dir: Seq<char>, ext: Seq<char>)
    requires
        p != q,
        below(p, src_dir) is Some,
        below(q, src_dir) is Some,
        relative_file(below(p, src_dir)->Some_0),
        relative_file(below(q, src_dir)->Some_0),
        extension(below(p, src_dir)->Some_0) == extension(below(q, src_dir)->Some_0),
    ensures
        object_of(p, src_dir, ext) != object_of(q, src_dir, ext),
{
    let rp = below(p, src_dir)->Some_0;
    let rq = below(q, src_dir)->Some_0;
    lemma_object_paths_collide(p, q, src_dir, ext);
    if stem(rp) == stem(rq) {
        lemma_name_start(rp);
        lemma_name_start(rq);
        lemma_dot_at(rp, crate::path::name_start(rp));
        lemma_dot_at(rq, crate::path::name_start(rq));
        assert(0 <= stem_len(rp) <= rp.len());
        assert(0 <= stem_len(rq) <= rq.len());
        assert(rp =~= stem(rp) + extension(rp));
        assert(rq =~= stem(rq) + extension(rq));
        lemma_below_decides(p, q, src_dir);
    }
}

/// One requested artifact with all that building it needs.
#[derive(Debug)]
pub struct Graph {
    pub tool_chain: ToolChain,
    /// Carried with the target; no flag is derived from it.
    pub opt_level: OptimizationLevel,
    pub typ: BinaryType,
    pub files: Vec<String>,
    pub output: String,
    pub src_dir: String,
    pub includes: Vec<String>,
    pub lib_paths: Vec<String>,
    pub libs: Vec<String>,
    pub args: CompilerFlags,
    pub excludes: Option<Vec<String>>,
    pub full_rebuild: bool,
}

impl Graph {
    /// The root of the build cache.
    pub fn cache_dir() -> (dir: &'static str)
        ensures
            dir@ == ".cargoc"@,
    {
        ".cargoc"
    }

    /// The directory of the object files, below the cache's root.
    pub fn obj_dir() -> (dir: String)
        ensures
            dir@ == object_dir(),
            dir@ == ".cargoc/obj"@,
    {
        proof {
            lemma_object_dir();
        }
        join(".cargoc", "obj")
    }

    /// The artifact's path on the host system `os`.
    pub open spec fn artifact(&self, os: Os) -> Seq<char> {
        if os == Os::Window {
            with_ext(self.output@, binary_ext(self.typ))
        } else {
            self.output@
        }
    }

    /// The artifact's path: on Windows the configured path with the
    /// extension of the binary's kind, elsewhere the configured path.
    pub fn output(&self, os: &Os) -> (path: String)
        ensures
            path@ == self.artifact(*os),
    {
        match os {
            Os::Window => {
                let ext = match self.typ {
                    BinaryType::Executable => "exe",
                    BinaryType::DynLib => "dll",
                    BinaryType::StaticLib => "lib",
                };
                with_extension(self.output.as_str(), ext)
            },
            _ => self.output.clone(),
        }
    }

    /// `path` stands verbatim in the exclusion list.
    pub open spec fn excluded(&self, path: Seq<char>) -> bool {
        match self.excludes {
            Some(list) => texts(list@).contains(path),
            None => false,
        }
    }

    /// Whether `path` stands verbatim in the exclusion list.
    pub fn is_excluded(&self, path: &str) -> (yes: bool)
        ensures
            yes == self.excluded(path@),
    {
        match &self.excludes {
            None => false,
            Some(list) => {
                let mut i: usize = 0;
                while i < list.len()
                    invariant
                        i <= list.len(),
                        self.excludes == Some(*list),
                        forall|j: int| 0 <= j < i ==> list@[j]@ != path@,
                    decreases list.len() - i,
                {
                    if same_text(list[i].as_str(), path) {
                        assert(texts(list@)[i as int] == path@);
                        return true;
                    }
                    i += 1;
                }
                assert forall|j: int| 0 <= j < texts(list@).len() implies texts(list@)[j] != path@ by {
                    assert(texts(list@)[j] == list@[j]@);
                }
                false
            },
        }
    }

    /// The test that a path passes when no exclusion names it.
    pub open spec fn stays(&self) -> spec_fn(Seq<char>) -> bool {
        |path: Seq<char>| !self.excluded(path)
    }

    /// The target's configured paths without those that an exclusion
    /// names verbatim, in order: the paths to look at on disk.
    pub fn selected(&self) -> (paths: Vec<String>)
        ensures
            texts(paths@) == texts(self.files@).filter(self.stays()),
    {
        let mut paths: Vec<String> = Vec::new();
        let mut i: usize = 0;
        proof {
            reveal(Seq::filter);
            assert(texts(self.files@.take(0)) =~= Seq::<Seq<char>>::empty());
            assert(texts(paths@) =~= Seq::<Seq<char>>::empty());
        }
        while i < self.files.len()
            invariant
                i <= self.files.len(),
                texts(paths@) == texts(self.files@.take(i as int)).filter(self.stays()),
            decreases self.files.len() - i,
        {
            let ghost before = texts(paths@);
            let excluded = self.is_excluded(self.files[i].as_str());
            if !excluded {
                paths.push(self.files[i].clone());
            }
            proof {
                reveal(Seq::filter);
                let next = texts(self.files@.take(i + 1));
                assert(next.drop_last() =~= texts(self.files@.take(i as int)));
                assert(next.last() == self.files@[i as int]@);
                assert(texts(paths@) =~= if excluded {
                    before
                } else {
                    before.push(self.files@[i as int]@)
                });
            }
            i += 1;
        }
        assert(self.files@.take(i as int) =~= self.files@);
        paths
    }

    /// The source files of the target: for each listed path that is not
    /// excluded, the path itself if it is a file, else the files below it.
    pub open spec fn discovered(&self, listed: Seq<Listed>) -> Seq<Seq<char>>
        decreases listed.len(),
    {
        if listed.len() == 0 {
            Seq::empty()
        } else {
            self.discovered(listed.drop_last()) + if self.excluded(listed.last().path@) {
                Seq::<Seq<char>>::empty()
            } else {
                files_of(listed.last())
            }
        }
    }

    /// Expands the target's listed paths into its flat list of source
    /// files. An exclusion removes a listed path, and with a directory all
    /// below it; it removes nothing found inside a directory that stays.
    pub fn discover(&self, listed: &Vec<Listed>) -> (sources: Vec<String>)
        ensures
            texts(sources@) == self.discovered(listed@),
    {
        let mut sources: Vec<String> = Vec::new();
        let mut i: usize = 0;
        assert(listed@.take(0) =~= Seq::<Listed>::empty());
        assert(texts(sources@) =~= Seq::<Seq<char>>::empty());
        while i < listed.len()
            invariant
                i <= listed.len(),
                texts(sources@) == self.discovered(listed@.take(i as int)),
            decreases listed.len() - i,
        {
            let entry = &listed[i];
            let ghost before = texts(sources@);
            assert(listed@.take(i + 1).drop_last() =~= listed@.take(i as int));
            assert(listed@.take(i + 1).last() == *entry);
            if !self.is_excluded(entry.path.as_str()) {
                if entry.is_dir {
                    let mut k: usize = 0;
                    assert(entry.descendants@.take(0) =~= Seq::<Descendant>::empty());
                    assert(texts(sources@) =~= before + files_among(entry.descendants@.take(0)));
                    while k < entry.descendants.len()
                        invariant
                            k <= entry.descendants.len(),
                            texts(sources@) == before + files_among(entry.descendants@.take(k as int)),
                        decreases entry.descendants.len() - k,
                    {
                        let found = &entry.descendants[k];
                        assert(entry.descendants@.take(k + 1).drop_last() =~= entry.descendants@.take(
                            k as int,
                        ));
                        assert(entry.descendants@.take(k + 1).last() == *found);
                        let ghost mid = texts(sources@);
                        if !found.is_dir {
                            sources.push(found.path.clone());
                            assert(texts(sources@) =~= mid.push(found.path@));
                        }
                        assert(texts(sources@) =~= before + files_among(
                            entry.descendants@.take(k + 1),
                        ));
                        k += 1;
                    }
                    assert(entry.descendants@.take(k as int) =~= entry.descendants@);
                } else {
                    sources.push(entry.path.clone());
                    assert(texts(sources@) =~= before + seq![entry.path@]);
                }
            } else {
                assert(texts(sources@) =~= before + Seq::<Seq<char>>::empty());
            }
            i += 1;
        }
        assert(listed@.take(i as int) =~= listed@);
        sources
    }

    /// The object file that `source` is compiled into.
    pub fn object_path(&self, source: &str) -> (object: String)
        ensures
            object@ == object_of(source@, self.src_dir@, self.tool_chain.obj_ext()),
    {
        let dir = Self::obj_dir();
        let placed = match strip_prefix(source, self.src_dir.as_str()) {
            Some(rest) => join(dir.as_str(), rest.as_str()),
            None => join(dir.as_str(), source),
        };
        with_extension(placed.as_str(), self.tool_chain.obj_file_ext())
    }

    /// `file` compiles `source` with this target's toolchain and flags.
    pub open spec fn compiles(&self, file: InputFile, source: String) -> bool {
        &&& file.path == source
        &&& file.output_path@ == object_of(source@, self.src_dir@, self.tool_chain.obj_ext())
        &&& file.tool_chain == self.tool_chain
        &&& file.args.same(&self.args)
        &&& file.includes@ == self.includes@
        &&& file.full_rebuild == self.full_rebuild
    }

    /// One compilation unit per source file, in order.
    pub fn input_files(&self, sources: &Vec<String>) -> (files: Vec<InputFile>)
        ensures
            files@.len() == sources@.len(),
            forall|i: int| 0 <= i < sources@.len() ==> self.compiles(#[trigger] files@[i], sources@[i]),
    {
        let mut files: Vec<InputFile> = Vec::new();
        let mut i: usize = 0;
        while i < sources.len()
            invariant
                i <= sources.len(),
                files@.len() == i,
                forall|j: int| 0 <= j < i ==> self.compiles(#[trigger] files@[j], sources@[j]),
            decreases sources.len() - i,
        {
            let output = self.object_path(sources[i].as_str());
            let file = InputFile::new(
                sources[i].clone(),
                output,
                self.tool_chain.clone(),
                self.args.clone(),
                copy_texts(&self.includes),
                self.full_rebuild,
            );
            files.push(file);
            i += 1;
        }
        files
    }

    /// Whether an object from index `from` on decides that the artifact is
    /// stale: the first object without a readable time is an error, the
    /// first one strictly newer than the artifact makes it stale.
    pub open spec fn scan(&self, artifact: FileStamp, objects: Seq<StampedObject>, from: int) -> Result<
        bool,
        BuildError,
    >
        decreases objects.len() - from,
    {
        if from < 0 || from >= objects.len() {
            Ok(false)
        } else {
            match objects[from].stamp {
                FileStamp::Modified(made) => match artifact {
                    FileStamp::Modified(linked) => if made > linked {
                        Ok(true)
                    } else {
                        self.scan(artifact, objects, from + 1)
                    },
                    _ => Err(BuildError::Filesystem { path: self.output }),
                },
                _ => Err(BuildError::Filesystem { path: objects[from].file.path }),
            }
        }
    }

    /// Whether the artifact must be linked again, or the error that keeps
    /// the question open.
    pub open spec fn stale(&self, artifact: FileStamp, objects: Seq<StampedObject>) -> Result<bool, BuildError> {
        if self.full_rebuild || artifact is Missing {
            Ok(true)
        } else {
            self.scan(artifact, objects, 0)
        }
    }

    /// Where every stamp is readable, the scan finds the artifact stale
    /// exactly when some object from `from` on is strictly newer than it.
    pub proof fn lemma_scan(&self, artifact: FileStamp, objects: Seq<StampedObject>, from: int)
        requires
            0 <= from,
            artifact is Modified,
            forall|i: int| 0 <= i < objects.len() ==> objects[i].stamp is Modified,
        ensures
            self.scan(artifact, objects, from) == Ok::<bool, BuildError>(
                exists|i: int|
                    from <= i < objects.len() && objects[i].stamp->Modified_0 > artifact->Modified_0,
            ),
        decreases objects.len() - from,
    {
        if from < objects.len() {
            self.lemma_scan(artifact, objects, from + 1);
            assert(objects[from].stamp is Modified);
        }
    }

    /// Decides the artifact's staleness from its stamp and the objects':
    /// always stale under a full rebuild, stale when missing, else stale
    /// exactly when some object is strictly newer than the artifact.
    pub fn should_recompile(&self, artifact: &FileStamp, objects: &Vec<StampedObject>) -> (verdict: Result<
        bool,
        BuildError,
    >)
        ensures
            verdict == self.stale(*artifact, objects@),
            !self.full_rebuild && *artifact is Modified && (forall|i: int|
                0 <= i < objects@.len() ==> objects@[i].stamp is Modified) ==> verdict == Ok::<
                bool,
                BuildError,
            >(
                exists|i: int|
                    0 <= i < objects@.len() && objects@[i].stamp->Modified_0 > artifact->Modified_0,
            ),
    {
        proof {
            if *artifact is Modified && (forall|i: int|
                0 <= i < objects@.len() ==> objects@[i].stamp is Modified) {
                self.lemma_scan(*artifact, objects@, 0);
            }
        }
        if self.full_rebuild {
            return Ok(true);
        }
        match artifact {
            FileStamp::Missing => {
                return Ok(true);
            },
            _ => {},
        }
        let mut i: usize = 0;
        while i < objects.len()
            invariant
                i <= objects.len(),
                !self.full_rebuild,
                !(*artifact is Missing),
                self.scan(*artifact, objects@, i as int) == self.scan(*artifact, objects@, 0),
            decreases objects.len() - i,
        {
            match objects[i].stamp {
                FileStamp::Modified(made) => match artifact {
                    FileStamp::Modified(linked) => {
                        if made > *linked {
                            return Ok(true);
                        }
                    },
                    _ => {
                        return Err(BuildError::Filesystem { path: self.output.clone() });
                    },
                },
                _ => {
                    return Err(BuildError::Filesystem { path: objects[i].file.path.clone() });
                },
            }
            i += 1;
        }
        Ok(false)
    }

    /// What keeps the toolchain from linking this target, if anything:
    /// no linker for the kind of binary, or libraries asked of MSVC.
    pub open spec fn config_fault(&self) -> Option<ConfigFault> {
        if !self.tool_chain.links(self.typ) {
            Some(ConfigFault::UnsupportedBinaryType)
        } else if self.tool_chain.msvc() && (self.libs@.len() > 0 || self.lib_paths@.len() > 0) {
            Some(ConfigFault::UnsupportedLibraries)
        } else {
            None
        }
    }

    /// Tests whether the toolchain can link this target.
    pub fn check_config(&self) -> (fault: Option<ConfigFault>)
        ensures
            fault == self.config_fault(),
    {
        if !self.tool_chain.can_link(&self.typ) {
            Some(ConfigFault::UnsupportedBinaryType)
        } else if self.tool_chain.is_msvc() && (self.libs.len() > 0 || self.lib_paths.len() > 0) {
            Some(ConfigFault::UnsupportedLibraries)
        } else {
            None
        }
    }

    /// The arguments that name the artifact.
    pub open spec fn out_args(&self, os: Os) -> Seq<Seq<char>> {
        if self.tool_chain.msvc() {
            seq!["/OUT:"@ + self.artifact(os)]
        } else {
            seq!["-o"@, self.artifact(os)]
        }
    }

    /// All arguments of the linker, in order: the artifact, the objects,
    /// the free-form flags, the libraries, the library directories.
    pub open spec fn linker_args(&self, os: Os, objects: Seq<StampedObject>) -> Seq<Seq<char>> {
        (if self.tool_chain.zig() { seq!["cc"@] } else { Seq::<Seq<char>>::empty() })
            + self.out_args(os)
            + object_args(objects)
            + (if self.tool_chain.msvc() { seq!["/nologo"@] } else { Seq::<Seq<char>>::empty() })
            + texts(self.args.custom@)
            + prefixed("-l"@, self.libs@)
            + prefixed("-L"@, self.lib_paths@)
    }

    fn append_out(&self, os: &Os, cmd: &mut Command)
        ensures
            final(cmd).program == old(cmd).program,
            final(cmd).arg_texts() == old(cmd).arg_texts() + self.out_args(*os),
    {
        let output = self.output(os);
        if self.tool_chain.is_msvc() {
            cmd.arg_joined(self.tool_chain.linker_output_flag(), output.as_str());
            assert(cmd.arg_texts() =~= old(cmd).arg_texts() + self.out_args(*os));
            return;
        }
        cmd.arg(self.tool_chain.linker_output_flag());
        cmd.arg(output.as_str());
        assert(cmd.arg_texts() =~= old(cmd).arg_texts() + self.out_args(*os));
    }

    fn append_files(&self, cmd: &mut Command, files: &Vec<StampedObject>)
        ensures
            final(cmd).program == old(cmd).program,
            final(cmd).arg_texts() == old(cmd).arg_texts() + object_args(files@),
    {
        let mut i: usize = 0;
        while i < files.len()
            invariant
                i <= files.len(),
                cmd.program == old(cmd).program,
                cmd.arg_texts() == old(cmd).arg_texts() + object_args(files@.take(i as int)),
            decreases files.len() - i,
        {
            cmd.arg(files[i].file.path.as_str());
            assert(cmd.arg_texts() =~= old(cmd).arg_texts() + object_args(files@.take(i + 1)));
            i += 1;
        }
        assert(files@.take(i as int) =~= files@);
    }

    fn append_args(&self, cmd: &mut Command)
        ensures
            final(cmd).program == old(cmd).program,
            final(cmd).arg_texts() == old(cmd).arg_texts() + (if self.tool_chain.msvc() {
                seq!["/nologo"@]
            } else {
                Seq::<Seq<char>>::empty()
            }) + texts(self.args.custom@),
    {
        if self.tool_chain.is_msvc() {
            cmd.arg("/nologo");
        }
        let ghost before = cmd.arg_texts();
        assert(before =~= old(cmd).arg_texts() + (if self.tool_chain.msvc() {
            seq!["/nologo"@]
        } else {
            Seq::<Seq<char>>::empty()
        }));
        let mut i: usize = 0;
        while i < self.args.custom.len()
            invariant
                i <= self.args.custom.len(),
                cmd.program == old(cmd).program,
                cmd.arg_texts() == before + texts(self.args.custom@.take(i as int)),
            decreases self.args.custom.len() - i,
        {
            cmd.arg(self.args.custom[i].as_str());
            assert(cmd.arg_texts() =~= before + texts(self.args.custom@.take(i + 1)));
            i += 1;
        }
        assert(self.args.custom@.take(i as int) =~= self.args.custom@);
    }

    fn append_prefixed(cmd: &mut Command, flag: &str, list: &Vec<String>)
        ensures
            final(cmd).program == old(cmd).program,
            final(cmd).arg_texts() == old(cmd).arg_texts() + prefixed(flag@, list@),
    {
        let mut i: usize = 0;
        while i < list.len()
            invariant
                i <= list.len(),
                cmd.program == old(cmd).program,
                cmd.arg_texts() == old(cmd).arg_texts() + prefixed(flag@, list@.take(i as int)),
            decreases list.len() - i,
        {
            cmd.arg_joined(flag, list[i].as_str());
            assert(cmd.arg_texts() =~= old(cmd).arg_texts() + prefixed(flag@, list@.take(i + 1)));
            i += 1;
        }
        assert(list@.take(i as int) =~= list@);
    }

    fn append_libs(&self, cmd: &mut Command)
        requires
            self.config_fault() is None,
        ensures
            final(cmd).program == old(cmd).program,
            final(cmd).arg_texts() == old(cmd).arg_texts() + prefixed("-l"@, self.libs@) + prefixed(
                "-L"@,
                self.lib_paths@,
            ),
    {
        if self.tool_chain.is_msvc() {
            assert(cmd.arg_texts() =~= old(cmd).arg_texts() + prefixed("-l"@, self.libs@) + prefixed(
                "-L"@,
                self.lib_paths@,
            ));
            return;
        }
        Self::append_prefixed(cmd, self.tool_chain.linker_link_lib(), &self.libs);
        Self::append_prefixed(cmd, self.tool_chain.linker_link_dir_flag(), &self.lib_paths);
    }

    /// The linker's command for this target and these objects.
    pub fn link_command(&self, os: &Os, objects: &Vec<StampedObject>) -> (cmd: Command)
        requires
            self.config_fault() is None,
        ensures
            cmd.program@ == self.tool_chain.linker_name(self.typ),
            cmd.arg_texts() == self.linker_args(*os, objects@),
    {
        let mut cmd = Command::new(self.tool_chain.linker(&self.typ));
        if self.tool_chain.is_zig() {
            cmd.arg("cc");
        }
        let ghost lead = cmd.arg_texts();
        assert(lead =~= if self.tool_chain.zig() {
            seq!["cc"@]
        } else {
            Seq::<Seq<char>>::empty()
        });
        self.append_out(os, &mut cmd);
        self.append_files(&mut cmd, objects);
        self.append_args(&mut cmd);
        self.append_libs(&mut cmd);
        assert(cmd.arg_texts() =~= self.linker_args(*os, objects@));
        cmd
    }

    /// What the staleness check leads to: an error, the artifact as it
    /// is, or the linker's command; a stale artifact that the toolchain
    /// cannot link is a configuration error.
    pub open spec fn step_for(
        &self,
        os: Os,
        artifact: FileStamp,
        objects: Seq<StampedObject>,
        step: Result<LinkStep, BuildError>,
    ) -> bool {
        match self.stale(artifact, objects) {
            Err(e) => step == Err::<LinkStep, BuildError>(e),
            Ok(false) => {
                &&& step is Ok
                &&& step->Ok_0 is Skipped
                &&& step->Ok_0->Skipped_0@ == self.artifact(os)
            },
            Ok(true) => match self.config_fault() {
                Some(fault) => step == Err::<LinkStep, BuildError>(BuildError::Configuration { fault }),
                None => {
                    &&& step is Ok
                    &&& step->Ok_0 is Linking
                    &&& step->Ok_0->Linking_0.program@ == self.tool_chain.linker_name(self.typ)
                    &&& step->Ok_0->Linking_0.arg_texts() == self.linker_args(os, objects)
                },
            },
        }
    }

    /// Takes the target from unchecked to skipped or linking. The caller
    /// runs the command of a linking target and hands the process's end to
    /// `finish`.
    pub fn link(&self, os: &Os, artifact: &FileStamp, objects: &Vec<StampedObject>) -> (step: Result<
        LinkStep,
        BuildError,
    >)
        ensures
            self.step_for(*os, *artifact, objects@, step),
            self.full_rebuild && self.config_fault() is None ==> step is Ok && step->Ok_0 is Linking,
    {
        match self.should_recompile(artifact, objects) {
            Err(e) => Err(e),
            Ok(false) => Ok(LinkStep::Skipped(self.output(os))),
            Ok(true) => match self.check_config() {
                Some(fault) => Err(BuildError::Configuration { fault }),
                None => Ok(LinkStep::Linking(self.link_command(os, objects))),
            },
        }
    }

    /// Takes a linking target to completed or failed: the artifact's path
    /// on success, else the failure with the configured output path.
    pub fn finish(&self, os: &Os, outcome: ProcessOutcome) -> (done: Result<String, BuildError>)
        ensures
            match failure_of(Stage::Link, self.output, outcome) {
                Some(e) => done == Err::<String, BuildError>(e),
                None => done is Ok && done->Ok_0@ == self.artifact(*os),
            },
    {
        match BuildError::from_outcome(Stage::Link, &self.output, outcome) {
            Some(e) => Err(e),
            None => Ok(self.output(os)),
        }
    }

    /// The objects of the compile jobs if all succeeded, else the first
    /// failure in the order given.
    pub fn gather(results: &Vec<Result<StampedObject, BuildError>>) -> (objects: Result<
        Vec<StampedObject>,
        BuildError,
    >)
        ensures
            match first_failure(results@) {
                Some(e) => objects == Err::<Vec<StampedObject>, BuildError>(e),
                None => objects is Ok && objects->Ok_0@ == successes(results@),
            },
    {
        let mut objects: Vec<StampedObject> = Vec::new();
        let mut i: usize = 0;
        assert(results@.take(0) =~= Seq::<Result<StampedObject, BuildError>>::empty());
        while i < results.len()
            invariant
                i <= results.len(),
                first_failure(results@.take(i as int)) is None,
                objects@ == successes(results@.take(i as int)),
            decreases results.len() - i,
        {
            assert(results@.take(i + 1).drop_last() =~= results@.take(i as int));
            assert(results@.take(i + 1).last() == results@[i as int]);
            match &results[i] {
                Err(e) => {
                    proof {
                        lemma_failure_stays(results@, i + 1);
                    }
                    return Err(e.clone());
                },
                Ok(object) => {
                    objects.push(object.clone());
                    assert(objects@ =~= successes(results@.take(i + 1)));
                },
            }
            i += 1;
        }
        assert(results@.take(i as int) =~= results@);
        Ok(objects)
    }

    /// Closes the target's build once every compile job is done: a failed
    /// job fails the build with the first failure and nothing is linked;
    /// else the link step is decided from the objects.
    pub fn build(&self, os: &Os, results: &Vec<Result<StampedObject, BuildError>>, artifact: &FileStamp) -> (step:
        Result<LinkStep, BuildError>)
        ensures
            match first_failure(results@) {
                Some(e) => step == Err::<LinkStep, BuildError>(e),
                None => self.step_for(*os, *artifact, successes(results@), step),
            },
            (exists|i: int| 0 <= i < results@.len() && results@[i] is Err) ==> step is Err,
    {
        proof {
            lemma_first_failure(results@);
        }
        match Self::gather(results) {
            Err(e) => Err(e),
            Ok(objects) => self.link(os, artifact, &objects),
        }
    }
}

/// A failure found among the first `n` results is the first of all.
pub proof fn lemma_failure_stays(results: Seq<Result<StampedObject, BuildError>>, n: int)
    requires
        0 <= n <= results.len(),
        first_failure(results.take(n)) is Some,
    ensures
        first_failure(results) == first_failure(results.take(n)),
    decreases results.len() - n,
{
    if n < results.len() {
        assert(results.take(n + 1).drop_last() =~= results.take(n));
        lemma_failure_stays(results, n + 1);
    } else {
        assert(results.take(n) =~= results);
    }
}

/// A build that follows a successful one with no source touched does
/// nothing: where no source is newer than its object and no object is
/// newer than the artifact, every file is skipped and so is the link.
pub proof fn lemma_rebuild_is_idle(
    graph: Graph,
    os: Os,
    files: Seq<InputFile>,
    sources: Seq<FileStamp>,
    objects: Seq<StampedObject>,
    artifact: FileStamp,
    steps: Seq<Result<CompileStep, BuildError>>,
    link: Result<LinkStep, BuildError>,
)
    requires
        !graph.full_rebuild,
        artifact is Modified,
        files.len() == sources.len(),
        files.len() == objects.len(),
        files.len() == steps.len(),
        forall|i: int|
            0 <= i < files.len() ==> {
                &&& !(#[trigger] files[i]).full_rebuild
                &&& sources[i] is Modified
                &&& objects[i].stamp is Modified
                &&& sources[i]->Modified_0 <= objects[i].stamp->Modified_0
                &&& objects[i].stamp->Modified_0 <= artifact->Modified_0
                &&& files[i].step_for(sources[i], objects[i].stamp, steps[i])
            },
        graph.step_for(os, artifact, objects, link),
    ensures
        forall|i: int| 0 <= i < steps.len() ==> (#[trigger] steps[i]) is Ok && steps[i]->Ok_0 is Skipped,
        link is Ok && link->Ok_0 is Skipped,
{
    assert forall|i: int| 0 <= i < steps.len() implies (#[trigger] steps[i]) is Ok
        && steps[i]->Ok_0 is Skipped by {
        assert(!files[i].full_rebuild);
    }
    assert forall|i: int| 0 <= i < objects.len() implies (#[trigger] objects[i]).stamp is Modified
        && objects[i].stamp->Modified_0 <= artifact->Modified_0 by {
        assert(!files[i].full_rebuild);
    }
    graph.lemma_scan(artifact, objects, 0);
}

/// Under a full rebuild every file of the target is compiled and the
/// target is linked, whatever the stamps say; the link needs a toolchain
/// that can link the target.
pub proof fn lemma_full_rebuild_runs_everything(
    graph: Graph,
    os: Os,
    file: InputFile,
    source: String,
    source_stamp: FileStamp,
    object_stamp: FileStamp,
    step: Result<CompileStep, BuildError>,
    artifact: FileStamp,
    objects: Seq<StampedObject>,
    link: Result<LinkStep, BuildError>,
)
    requires
        graph.full_rebuild,
        graph.compiles(file, source),
        file.step_for(source_stamp, object_stamp, step),
        graph.step_for(os, artifact, objects, link),
    ensures
        step is Ok && step->Ok_0 is Compiling,
        graph.config_fault() is None ==> link is Ok && link->Ok_0 is Linking,
        graph.config_fault() is Some ==> link is Err,
{
}

} // verus!
