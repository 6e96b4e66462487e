use vstd::prelude::*;
use crate::errors::{SuiteError, UnknownFileTypeError};
use crate::text::text_eq;

verus! {

/// A command line: the program and its arguments.
pub struct CommandSpec {
    pub program: &'static str,
    pub args: Vec<&'static str>,
}

/// A class path that is read at launch time: the jar, then the contents of
/// a file that lists the dependencies, trimmed or not.
pub struct Classpath {
    pub jar: &'static str,
    pub listing: &'static str,
    pub trim: bool,
}

/// One server under benchmark.
pub struct TargetSpec {
    /// Name on the command line.
    pub key: &'static str,
    /// Name in charts and exports.
    pub title: &'static str,
    /// Command that builds the server; `None` when nothing is built.
    pub build: Option<CommandSpec>,
    /// Command that starts the server.
    pub run: CommandSpec,
    /// When present, the run command takes `-cp <class path>` before its
    /// other arguments.
    pub classpath: Option<Classpath>,
}

pub open spec fn strs_view(v: Seq<&'static str>) -> Seq<Seq<char>> {
    v.map_values(|a: &'static str| a@)
}

/// A command as its program and arguments.
pub open spec fn command_view(c: CommandSpec) -> (Seq<char>, Seq<Seq<char>>) {
    (c.program@, strs_view(c.args@))
}

pub type TargetView = (
    Seq<char>,
    Seq<char>,
    Option<(Seq<char>, Seq<Seq<char>>)>,
    (Seq<char>, Seq<Seq<char>>),
    Option<(Seq<char>, Seq<char>, bool)>,
);

/// A target as key, title, build command, run command and class path
/// (jar, listing file, trimmed).
pub open spec fn target_view(t: TargetSpec) -> TargetView {
    (
        t.key@,
        t.title@,
        match t.build {
            Some(c) => Some(command_view(c)),
            None => None,
        },
        command_view(t.run),
        match t.classpath {
            Some(c) => Some((c.jar@, c.listing@, c.trim)),
            None => None,
        },
    )
}

pub open spec fn cargo_release(manifest: Seq<char>) -> Option<(Seq<char>, Seq<Seq<char>>)> {
    Some(("cargo"@, seq!["build"@, "--manifest-path"@, manifest, "--release"@]))
}

pub open spec fn bare(program: Seq<char>) -> (Seq<char>, Seq<Seq<char>>) {
    (program, Seq::empty())
}

/// Every target: how it is built and started.
pub open spec fn registry_spec() -> Seq<TargetView> {
    seq![
        (
            "cpp"@,
            "C++/Boost.Beast"@,
            Some(("make"@, seq!["-C"@, "cpp"@, "clean"@, "target/server"@])),
            bare("cpp/target/server"@),
            None,
        ),
        (
            "crystal"@,
            "Crystal"@,
            Some(
                (
                    "crystal"@,
                    seq![
                        "build"@, "--release"@, "--no-debug"@, "-o"@, "crystal/server"@,
                        "crystal/server.cr"@,
                    ],
                ),
            ),
            bare("crystal/server"@),
            None,
        ),
        (
            "go"@,
            "Go"@,
            Some(("go"@, seq!["build"@, "-o"@, "go/build/main"@, "go/main.go"@])),
            bare("go/build/main"@),
            None,
        ),
        (
            "java"@,
            "Java/Spring Boot"@,
            Some(("make"@, seq!["-C"@, "java"@, "clean"@, "target/library.jar"@])),
            ("java"@, seq!["-Dserver.port=3000"@, "hello.SampleController"@]),
            Some(("java/target/library.jar"@, "java/target/classpath.line"@, false)),
        ),
        ("nodejs"@, "Node.js"@, None, ("node"@, seq!["nodejs/main.js"@]), None),
        (
            "php"@,
            "PHP/Swoole"@,
            None,
            ("php"@, seq!["-c"@, "php/swoole/php.ini"@, "php/swoole/main.php"@]),
            None,
        ),
        ("python"@, "PyPy3/Twisted"@, None, ("pypy3"@, seq!["python/twist.py"@]), None),
        (
            "rust_actix"@,
            "Rust/Actix"@,
            cargo_release("rust/actix-web/Cargo.toml"@),
            bare("rust/actix-web/target/release/actix-web-test"@),
            None,
        ),
        (
            "rust_hyper"@,
            "Rust/hyper"@,
            cargo_release("rust/hyper/Cargo.toml"@),
            bare("rust/hyper/target/release/hyper-test"@),
            None,
        ),
        (
            "rust_rocket"@,
            "Rust/rocket"@,
            cargo_release("rust/rocket/Cargo.toml"@),
            bare("rust/rocket/target/release/rust-rocket"@),
            None,
        ),
        (
            "rust_tide"@,
            "Rust/Tide"@,
            cargo_release("rust/tide/Cargo.toml"@),
            bare("rust/tide/target/release/tide-test"@),
            None,
        ),
        (
            "rust_warp"@,
            "Rust/warp"@,
            cargo_release("rust/warp/Cargo.toml"@),
            bare("rust/warp/target/release/warp-test"@),
            None,
        ),
        (
            "scala"@,
            "Scala/Akka"@,
            Some(("make"@, seq!["-C"@, "scala"@, "clean"@, "target/library.jar"@])),
            ("scala"@, seq!["lite.WebServer"@]),
            Some(("scala/target/library.jar"@, "scala/target/classpath.line"@, true)),
        ),
    ]
}

fn args0() -> (r: Vec<&'static str>)
    ensures
        strs_view(r@) == Seq::<Seq<char>>::empty(),
{
    let v: Vec<&'static str> = vec![];
    assert(strs_view(v@) =~= Seq::<Seq<char>>::empty());
    v
}

fn args1(a0: &'static str) -> (r: Vec<&'static str>)
    ensures
        strs_view(r@) == seq![a0@],
{
    let v: Vec<&'static str> = vec![a0];
    assert(strs_view(v@) =~= seq![a0@]);
    v
}

fn args2(a0: &'static str, a1: &'static str) -> (r: Vec<&'static str>)
    ensures
        strs_view(r@) == seq![a0@, a1@],
{
    let v: Vec<&'static str> = vec![a0, a1];
    assert(strs_view(v@) =~= seq![a0@, a1@]);
    v
}

fn args3(a0: &'static str, a1: &'static str, a2: &'static str) -> (r: Vec<&'static str>)
    ensures
        strs_view(r@) == seq![a0@, a1@, a2@],
{
    let v: Vec<&'static str> = vec![a0, a1, a2];
    assert(strs_view(v@) =~= seq![a0@, a1@, a2@]);
    v
}

fn args4(a0: &'static str, a1: &'static str, a2: &'static str, a3: &'static str) -> (r: Vec<&'static str>)
    ensures
        strs_view(r@) == seq![a0@, a1@, a2@, a3@],
{
    let v: Vec<&'static str> = vec![a0, a1, a2, a3];
    assert(strs_view(v@) =~= seq![a0@, a1@, a2@, a3@]);
    v
}

fn args5(a0: &'static str, a1: &'static str, a2: &'static str, a3: &'static str, a4: &'static str) -> (r: Vec<&'static str>)
    ensures
        strs_view(r@) == seq![a0@, a1@, a2@, a3@, a4@],
{
    let v: Vec<&'static str> = vec![a0, a1, a2, a3, a4];
    assert(strs_view(v@) =~= seq![a0@, a1@, a2@, a3@, a4@]);
    v
}

fn args6(a0: &'static str, a1: &'static str, a2: &'static str, a3: &'static str, a4: &'static str, a5: &'static str) -> (r: Vec<&'static str>)
    ensures
        strs_view(r@) == seq![a0@, a1@, a2@, a3@, a4@, a5@],
{
    let v: Vec<&'static str> = vec![a0, a1, a2, a3, a4, a5];
    assert(strs_view(v@) =~= seq![a0@, a1@, a2@, a3@, a4@, a5@]);
    v
}

fn cmd(program: &'static str, args: Vec<&'static str>) -> (r: CommandSpec)
    ensures
        r.program == program,
        r.args == args,
        command_view(r) == (program@, strs_view(args@)),
{
    CommandSpec { program, args }
}

fn cargo_build(manifest: &'static str) -> (r: Option<CommandSpec>)
    ensures
        r is Some,
        Some(command_view(r->0)) == cargo_release(manifest@),
{
    Some(cmd("cargo", args4("build", "--manifest-path", manifest, "--release")))
}

fn target(
    key: &'static str,
    title: &'static str,
    build: Option<CommandSpec>,
    run: CommandSpec,
) -> (r: TargetSpec)
    ensures
        r.key == key,
        r.title == title,
        r.build == build,
        r.run == run,
        r.classpath is None,
{
    TargetSpec { key, title, build, run, classpath: None }
}

/// Every server that can be benchmarked, ordered by key.
pub fn registry() -> (r: Vec<TargetSpec>)
    ensures
        r@.map_values(|t: TargetSpec| target_view(t)) == registry_spec(),
{
    let mut v: Vec<TargetSpec> = Vec::new();
    v.push(
        target(
            "cpp",
            "C++/Boost.Beast",
            Some(cmd("make", args4("-C", "cpp", "clean", "target/server"))),
            cmd("cpp/target/server", args0()),
        ),
    );
    v.push(
        target(
            "crystal",
            "Crystal",
            Some(
                cmd(
                    "crystal",
                    args6("build", "--release", "--no-debug", "-o", "crystal/server", "crystal/server.cr"),
                ),
            ),
            cmd("crystal/server", args0()),
        ),
    );
    v.push(
        target(
            "go",
            "Go",
            Some(cmd("go", args4("build", "-o", "go/build/main", "go/main.go"))),
            cmd("go/build/main", args0()),
        ),
    );
    v.push(
        TargetSpec {
            key: "java",
            title: "Java/Spring Boot",
            build: Some(cmd("make", args4("-C", "java", "clean", "target/library.jar"))),
            run: cmd("java", args2("-Dserver.port=3000", "hello.SampleController")),
            classpath: Some(
                Classpath {
                    jar: "java/target/library.jar",
                    listing: "java/target/classpath.line",
                    trim: false,
                },
            ),
        },
    );
    v.push(target("nodejs", "Node.js", None, cmd("node", args1("nodejs/main.js"))));
    v.push(
        target(
            "php",
            "PHP/Swoole",
            None,
            cmd("php", args3("-c", "php/swoole/php.ini", "php/swoole/main.php")),
        ),
    );
    v.push(target("python", "PyPy3/Twisted", None, cmd("pypy3", args1("python/twist.py"))));
    v.push(
        target(
            "rust_actix",
            "Rust/Actix",
            cargo_build("rust/actix-web/Cargo.toml"),
            cmd("rust/actix-web/target/release/actix-web-test", args0()),
        ),
    );
    v.push(
        target(
            "rust_hyper",
            "Rust/hyper",
            cargo_build("rust/hyper/Cargo.toml"),
            cmd("rust/hyper/target/release/hyper-test", args0()),
        ),
    );
    v.push(
        target(
            "rust_rocket",
            "Rust/rocket",
            cargo_build("rust/rocket/Cargo.toml"),
            cmd("rust/rocket/target/release/rust-rocket", args0()),
        ),
    );
    v.push(
        target(
            "rust_tide",
            "Rust/Tide",
            cargo_build("rust/tide/Cargo.toml"),
            cmd("rust/tide/target/release/tide-test", args0()),
        ),
    );
    v.push(
        target(
            "rust_warp",
            "Rust/warp",
            cargo_build("rust/warp/Cargo.toml"),
            cmd("rust/warp/target/release/warp-test", args0()),
        ),
    );
    v.push(
        TargetSpec {
            key: "scala",
            title: "Scala/Akka",
            build: Some(cmd("make", args4("-C", "scala", "clean", "target/library.jar"))),
            run: cmd("scala", args1("lite.WebServer")),
            classpath: Some(
                Classpath {
                    jar: "scala/target/library.jar",
                    listing: "scala/target/classpath.line",
                    trim: true,
                },
            ),
        },
    );
    assert(v@.map_values(|t: TargetSpec| target_view(t)) =~= registry_spec());
    v
}

/// The command line asks for the target with key `key`, or for all of them.
pub open spec fn wants(requested: Seq<String>, key: Seq<char>) -> bool {
    exists|j: int| 0 <= j < requested.len() && (#[trigger] requested[j]@ == key || requested[j]@
        == "all"@)
}

/// Indices, ascending, of the first `n` targets that the command line asks
/// for.
pub open spec fn selected(reg: Seq<TargetSpec>, requested: Seq<String>, n: int) -> Seq<usize>
    decreases n,
{
    if n <= 0 {
        Seq::empty()
    } else {
        let p = selected(reg, requested, n - 1);
        if wants(requested, reg[n - 1].key@) {
            p.push((n - 1) as usize)
        } else {
            p
        }
    }
}

/// The targets to benchmark, in registry order: those named on the command
/// line, or every one when `all` is named. Unknown names select nothing.
pub fn select_targets(reg: &Vec<TargetSpec>, requested: &Vec<String>) -> (r: Vec<usize>)
    ensures
        r@ == selected(reg@, requested@, reg@.len() as int),
{
    let mut out: Vec<usize> = Vec::new();
    let mut i: usize = 0;
    while i < reg.len()
        invariant
            i <= reg@.len(),
            out@ == selected(reg@, requested@, i as int),
        decreases reg.len() - i,
    {
        let key = reg[i].key;
        let mut hit = false;
        let mut j: usize = 0;
        while j < requested.len()
            invariant
                j <= requested@.len(),
                i < reg@.len(),
                key == reg@[i as int].key,
                hit == exists|k: int|
                    0 <= k < j && (#[trigger] requested@[k]@ == key@ || requested@[k]@ == "all"@),
            decreases requested.len() - j,
        {
            if text_eq(requested[j].as_str(), key) || text_eq(requested[j].as_str(), "all") {
                hit = true;
            }
            j = j + 1;
        }
        if hit {
            out.push(i);
        }
        i = i + 1;
    }
    out
}

/// What the output file's extension selects.
#[derive(Debug, Clone, Copy, PartialEq, Eq, Structural)]
pub enum OutputFormat {
    /// Tab-separated raw samples.
    Tsv,
    /// Box-plot chart as SVG.
    Svg,
    /// Box-plot chart as a PNG, JPEG or BMP image.
    Bitmap,
}

/// The image formats that the bitmap backend writes.
pub open spec fn is_bitmap_extension(e: Seq<char>) -> bool {
    e == "png"@ || e == "jpg"@ || e == "jpeg"@ || e == "bmp"@
}

pub open spec fn format_spec(ext: Option<Seq<char>>) -> Result<OutputFormat, SuiteError> {
    match ext {
        None => Err(SuiteError::UnknownFileType(UnknownFileTypeError {})),
        Some(e) => if e == "tsv"@ {
            Ok(OutputFormat::Tsv)
        } else if e == "svg"@ {
            Ok(OutputFormat::Svg)
        } else if is_bitmap_extension(e) {
            Ok(OutputFormat::Bitmap)
        } else {
            Err(SuiteError::UnknownFileType(UnknownFileTypeError {}))
        },
    }
}

/// The output format for a file extension: `tsv`, `svg`, or one of the
/// bitmap formats `png`, `jpg`, `jpeg` and `bmp`; a missing or any other
/// extension is a configuration error.
pub fn format_for_extension(ext: Option<&str>) -> (r: Result<OutputFormat, SuiteError>)
    ensures
        r == format_spec(
            match ext {
                Some(e) => Some(e@),
                None => None,
            },
        ),
{
    match ext {
        None => Err(SuiteError::UnknownFileType(UnknownFileTypeError {})),
        Some(e) => {
            if text_eq(e, "tsv") {
                Ok(OutputFormat::Tsv)
            } else if text_eq(e, "svg") {
                Ok(OutputFormat::Svg)
            } else if text_eq(e, "png") || text_eq(e, "jpg") || text_eq(e, "jpeg") || text_eq(
                e,
                "bmp",
            ) {
                Ok(OutputFormat::Bitmap)
            } else {
                Err(SuiteError::UnknownFileType(UnknownFileTypeError {}))
            }
        },
    }
}

/// The extension of the last component of a path, as `Path::extension`
/// finds it.
pub uninterp spec fn extension_of(path: Seq<char>) -> Option<Seq<char>>;

/// Relies on `Path::extension`: the text after the last `.` of the file
/// name, `None` when the name has no such `.`; it depends on the path's text
/// alone. A `&str` path always gives a UTF-8 extension.
#[verifier::external_body]
fn path_extension(file: &str) -> (r: Option<String>)
    ensures
        r is None <==> extension_of(file@) is None,
        r is Some ==> extension_of(file@) == Some(r->0@),
{
    match std::path::Path::new(file).extension() {
        Some(e) => e.to_str().map(String::from),
        None => None,
    }
}

/// The output format chosen by the output file's name.
pub fn output_format(file: &str) -> (r: Result<OutputFormat, SuiteError>)
    ensures
        r == format_spec(extension_of(file@)),
{
    let ext = path_extension(file);
    match ext {
        Some(e) => format_for_extension(Some(e.as_str())),
        None => format_for_extension(None),
    }
}

/// Characters with Unicode's `White_Space` property, which is what
/// `char::is_whitespace` tests.
pub open spec fn is_white_space(c: char) -> bool {
    ||| ('\u{9}' <= c && c <= '\u{d}')
    ||| c == ' '
    ||| c == '\u{85}'
    ||| c == '\u{a0}'
    ||| c == '\u{1680}'
    ||| ('\u{2000}' <= c && c <= '\u{200a}')
    ||| c == '\u{2028}'
    ||| c == '\u{2029}'
    ||| c == '\u{202f}'
    ||| c == '\u{205f}'
    ||| c == '\u{3000}'
}

/// Index of the first character at or after `i` that is not white space,
/// or the length.
pub open spec fn first_non_white(s: Seq<char>, i: int) -> int
    decreases s.len() - i,
{
    if i < 0 || i >= s.len() {
        if i < 0 { i } else { s.len() as int }
    } else if is_white_space(s[i]) {
        first_non_white(s, i + 1)
    } else {
        i
    }
}

/// One past the last character before `j` that is not white space, or 0.
pub open spec fn end_non_white(s: Seq<char>, j: int) -> int
    decreases j,
{
    if j <= 0 || j > s.len() {
        if j <= 0 { 0 } else { j }
    } else if is_white_space(s[j - 1]) {
        end_non_white(s, j - 1)
    } else {
        j
    }
}

/// The text without its leading and trailing white space.
pub open spec fn trimmed(s: Seq<char>) -> Seq<char> {
    let a = first_non_white(s, 0);
    if a >= s.len() {
        Seq::empty()
    } else {
        s.subrange(a, end_non_white(s, s.len() as int))
    }
}

/// Relies on `str::trim`: the text with leading and trailing white space
/// (`char::is_whitespace`, the `White_Space` property) removed.
#[verifier::external_body]
fn trim_text(s: &str) -> (r: &str)
    ensures
        r@ == trimmed(s@),
{
    s.trim()
}

/// The class path argument: the jar, `:`, then the dependency listing,
/// trimmed when asked.
pub fn classpath_arg(jar: &str, listing: &str, trim: bool) -> (r: String)
    ensures
        r@ == jar@ + ":"@ + (if trim {
            trimmed(listing@)
        } else {
            listing@
        }),
{
    let mut s = String::from_str(jar);
    s.append(":");
    if trim {
        s.append(trim_text(listing));
    } else {
        s.append(listing);
    }
    s
}

} // verus!
