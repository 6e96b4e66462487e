use vstd::prelude::*;
use crate::errors::{to_result, ValueIsEmptyError};
use crate::targets::is_white_space;

verus! {

/// How to ask a language toolchain for its version.
pub struct VersionProbe {
    /// Name in the table.
    pub name: &'static str,
    pub program: &'static str,
    pub args: Vec<&'static str>,
    /// The version is printed on standard error rather than standard output.
    pub from_stderr: bool,
    /// Which whitespace-separated word of the output is the version; `None`
    /// when the whole output is.
    pub word: Option<usize>,
    /// A small program written to the temporary directory under this name
    /// and with this source; its path is the last argument.
    pub script: Option<(&'static str, &'static str)>,
}

pub open spec fn probe_names() -> Seq<Seq<char>> {
    seq![
        "Crystal"@, "C{pp}/g{pp}"@, "Go"@, "Java"@, "Node.js"@, "PHP"@, "PyPy"@, "Rust"@,
        "Scala"@,
    ]
}

pub open spec fn probe_programs() -> Seq<Seq<char>> {
    seq!["crystal"@, "g++"@, "go"@, "java"@, "node"@, "php"@, "pypy3"@, "rustc"@, "scala"@]
}

/// Where the version is read: standard error, and which word, per probe.
pub open spec fn probe_reading() -> Seq<(bool, Option<usize>)> {
    seq![
        (false, None),
        (false, None),
        (false, None),
        (false, None),
        (false, None),
        (false, None),
        (false, None),
        (false, Some(1usize)),
        (true, Some(4usize)),
    ]
}

fn probe(
    name: &'static str,
    program: &'static str,
    args: Vec<&'static str>,
    from_stderr: bool,
    word: Option<usize>,
    script: Option<(&'static str, &'static str)>,
) -> (r: VersionProbe)
    ensures
        r.name == name,
        r.program == program,
        r.from_stderr == from_stderr,
        r.word == word,
        r.script == script,
{
    VersionProbe { name, program, args, from_stderr, word, script }
}

/// The toolchains whose versions the table lists, in table order (by
/// name).
pub fn version_probes() -> (r: Vec<VersionProbe>)
    ensures
        r@.map_values(|p: VersionProbe| p.name@) == probe_names(),
        r@.map_values(|p: VersionProbe| p.program@) == probe_programs(),
        r@.map_values(|p: VersionProbe| (p.from_stderr, p.word)) == probe_reading(),
{
    let mut v: Vec<VersionProbe> = Vec::new();
    v.push(probe("Crystal", "crystal", vec!["eval", "puts Crystal::VERSION"], false, None, None));
    v.push(probe("C{pp}/g{pp}", "g++", vec!["-dumpfullversion"], false, None, None));
    v.push(
        probe(
            "Go",
            "go",
            vec!["run"],
            false,
            None,
            Some(
                (
                    "go.go",
                    "\npackage main\nimport (\n  \"fmt\"\n  \"runtime\"\n)\nfunc main() {\n  fmt.Printf(runtime.Version())\n}\n",
                ),
            ),
        ),
    );
    v.push(
        probe(
            "Java",
            "java",
            vec![],
            false,
            None,
            Some(
                (
                    "java.java",
                    "\nclass Test {\n  public static void main(String[] argv) {\n    System.out.print(System.getProperty(\"java.version\"));\n  }\n}\n",
                ),
            ),
        ),
    );
    v.push(
        probe("Node.js", "node", vec!["-e", "console.log(process.version)"], false, None, None),
    );
    v.push(probe("PHP", "php", vec!["-r", "echo phpversion();"], false, None, None));
    v.push(
        probe(
            "PyPy",
            "pypy3",
            vec![],
            false,
            None,
            Some(
                (
                    "pypy.py",
                    "\nimport platform, sys\npypy = \"%d.%d.%d-%s%d\" % sys.pypy_version_info\nprint(\"%s for Python %s\" % (pypy, platform.python_version()))\n",
                ),
            ),
        ),
    );
    v.push(probe("Rust", "rustc", vec!["--version"], false, Some(1), None));
    v.push(probe("Scala", "scala", vec!["-version"], true, Some(4), None));
    assert(v@.map_values(|p: VersionProbe| p.name@) =~= probe_names());
    assert(v@.map_values(|p: VersionProbe| p.program@) =~= probe_programs());
    assert(v@.map_values(|p: VersionProbe| (p.from_stderr, p.word)) =~= probe_reading());
    v
}

/// The words of `s` that remain to be found from position `i`, where `cur`
/// is the start of the word being read, or -1 between words; words are
/// separated by white space.
pub open spec fn words_scan(s: Seq<char>, cur: int, i: int) -> Seq<Seq<char>>
    decreases s.len() - i,
{
    if i < 0 || i >= s.len() {
        if cur >= 0 {
            seq![s.subrange(cur, s.len() as int)]
        } else {
            Seq::empty()
        }
    } else if is_white_space(s[i]) {
        (if cur >= 0 {
            seq![s.subrange(cur, i)]
        } else {
            Seq::empty()
        }) + words_scan(s, -1, i + 1)
    } else {
        words_scan(
            s,
            if cur >= 0 {
                cur
            } else {
                i
            },
            i + 1,
        )
    }
}

/// The non-empty runs of non-white-space characters of `s`, in order.
pub open spec fn words(s: Seq<char>) -> Seq<Seq<char>> {
    words_scan(s, -1, 0)
}

/// Relies on `str::split_whitespace` and `Iterator::nth`: the `n`-th
/// (from 0) of the substrings separated by any amount of `White_Space`,
/// with no empty ones.
#[verifier::external_body]
fn nth_word(s: &str, n: usize) -> (r: Option<String>)
    ensures
        r is Some <==> n < words(s@).len(),
        r is Some ==> r->0@ == words(s@)[n as int],
{
    s.split_whitespace().nth(n).map(String::from)
}

/// The version in a probe's output: the whole output, or its `word`-th
/// word; `ValueIsEmptyError` when the output has too few words.
pub fn pick_version(output: String, word: Option<usize>) -> (r: Result<String, ValueIsEmptyError>)
    ensures
        word is None ==> r == Ok::<String, ValueIsEmptyError>(output),
        word is Some ==> (r is Ok <==> word->0 < words(output@).len()),
        word is Some && r is Ok ==> r->Ok_0@ == words(output@)[word->0 as int],
{
    match word {
        None => Ok(output),
        Some(n) => to_result(nth_word(output.as_str(), n)),
    }
}

/// The table's rows after its header: a blank line, then `| name` and
/// `| version` on lines of their own, for each language.
pub open spec fn table_rows(rows: Seq<(Seq<char>, Seq<char>)>) -> Seq<char>
    decreases rows.len(),
{
    if rows.len() == 0 {
        Seq::empty()
    } else {
        let r = rows.last();
        table_rows(rows.drop_last()) + "\n\n| "@ + r.0 + "\n| "@ + r.1
    }
}

/// An AsciiDoc table of language versions, one row per `(name, version)`.
pub fn version_table(rows: &Vec<(String, String)>) -> (r: String)
    ensures
        r@ == "|===\n| Language | Version"@ + table_rows(
            rows@.map_values(|x: (String, String)| (x.0@, x.1@)),
        ) + "\n|==="@,
{
    let ghost view = rows@.map_values(|x: (String, String)| (x.0@, x.1@));
    let mut t = String::from_str("|===\n| Language | Version");
    let mut i: usize = 0;
    while i < rows.len()
        invariant
            i <= rows@.len(),
            view == rows@.map_values(|x: (String, String)| (x.0@, x.1@)),
            t@ == "|===\n| Language | Version"@ + table_rows(view.take(i as int)),
        decreases rows.len() - i,
    {
        let ghost before = t@;
        t.append("\n\n| ");
        t.append(rows[i].0.as_str());
        t.append("\n| ");
        t.append(rows[i].1.as_str());
        proof {
            assert(view.take(i as int + 1).drop_last() =~= view.take(i as int));
            assert(view.take(i as int + 1).last() == view[i as int]);
            assert(t@ =~= "|===\n| Language | Version"@ + table_rows(view.take(i as int + 1)));
        }
        i = i + 1;
    }
    assert(view.take(rows@.len() as int) =~= view);
    t.append("\n|===");
    t
}

} // verus!
