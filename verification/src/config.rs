//! Which extractor handles a file, chosen by its extension.

use vstd::prelude::*;
use crate::text::{ascii_lower, str_eq, to_lowercase, unicode_lowercase};

verus! {

/// Maximum text content to extract from a single file (1 MB).
pub const MAX_TEXT_SIZE: usize = 1_048_576;

/// Lower-case extensions of plain text, code, configuration, script, data
/// and other text formats, whose content is read as text.
pub open spec fn is_text_extension(e: Seq<char>) -> bool {
    ||| e == "txt"@
    ||| e == "md"@
    ||| e == "markdown"@
    ||| e == "rst"@
    ||| e == "rs"@
    ||| e == "py"@
    ||| e == "js"@
    ||| e == "ts"@
    ||| e == "tsx"@
    ||| e == "jsx"@
    ||| e == "java"@
    ||| e == "c"@
    ||| e == "cpp"@
    ||| e == "h"@
    ||| e == "hpp"@
    ||| e == "cs"@
    ||| e == "go"@
    ||| e == "rb"@
    ||| e == "php"@
    ||| e == "swift"@
    ||| e == "kt"@
    ||| e == "scala"@
    ||| e == "r"@
    ||| e == "lua"@
    ||| e == "pl"@
    ||| e == "pm"@
    ||| e == "json"@
    ||| e == "yaml"@
    ||| e == "yml"@
    ||| e == "toml"@
    ||| e == "xml"@
    ||| e == "html"@
    ||| e == "htm"@
    ||| e == "css"@
    ||| e == "scss"@
    ||| e == "sass"@
    ||| e == "less"@
    ||| e == "svg"@
    ||| e == "sh"@
    ||| e == "bash"@
    ||| e == "zsh"@
    ||| e == "fish"@
    ||| e == "bat"@
    ||| e == "cmd"@
    ||| e == "ps1"@
    ||| e == "psm1"@
    ||| e == "sql"@
    ||| e == "graphql"@
    ||| e == "gql"@
    ||| e == "log"@
    ||| e == "ini"@
    ||| e == "cfg"@
    ||| e == "conf"@
    ||| e == "env"@
    ||| e == "gitignore"@
    ||| e == "dockerignore"@
    ||| e == "editorconfig"@
    ||| e == "properties"@
    ||| e == "makefile"@
    ||| e == "cmake"@
    ||| e == "dockerfile"@
    ||| e == "csv"@
    ||| e == "tsv"@
}

/// The parser type for an already lower-cased extension: `"text"`, `"pdf"`,
/// `"docx"`, or `"none"` (metadata only).
pub open spec fn parser_type_name(e: Seq<char>) -> Seq<char> {
    if is_text_extension(e) {
        "text"@
    } else if e == "pdf"@ {
        "pdf"@
    } else if e == "docx"@ {
        "docx"@
    } else {
        "none"@
    }
}

/// The parser type for an extension that is already in lower case.
pub fn parser_type_for_lowercase(e: &str) -> (r: &'static str)
    ensures
        r@ == parser_type_name(e@),
{
    if str_eq(e, "txt") ||
        str_eq(e, "md") ||
        str_eq(e, "markdown") ||
        str_eq(e, "rst") ||
        str_eq(e, "rs") ||
        str_eq(e, "py") ||
        str_eq(e, "js") ||
        str_eq(e, "ts") ||
        str_eq(e, "tsx") ||
        str_eq(e, "jsx") ||
        str_eq(e, "java") ||
        str_eq(e, "c") ||
        str_eq(e, "cpp") ||
        str_eq(e, "h") ||
        str_eq(e, "hpp") ||
        str_eq(e, "cs") ||
        str_eq(e, "go") ||
        str_eq(e, "rb") ||
        str_eq(e, "php") ||
        str_eq(e, "swift") ||
        str_eq(e, "kt") ||
        str_eq(e, "scala") ||
        str_eq(e, "r") ||
        str_eq(e, "lua") ||
        str_eq(e, "pl") ||
        str_eq(e, "pm") ||
        str_eq(e, "json") ||
        str_eq(e, "yaml") ||
        str_eq(e, "yml") ||
        str_eq(e, "toml") ||
        str_eq(e, "xml") ||
        str_eq(e, "html") ||
        str_eq(e, "htm") ||
        str_eq(e, "css") ||
        str_eq(e, "scss") ||
        str_eq(e, "sass") ||
        str_eq(e, "less") ||
        str_eq(e, "svg") ||
        str_eq(e, "sh") ||
        str_eq(e, "bash") ||
        str_eq(e, "zsh") ||
        str_eq(e, "fish") ||
        str_eq(e, "bat") ||
        str_eq(e, "cmd") ||
        str_eq(e, "ps1") ||
        str_eq(e, "psm1") ||
        str_eq(e, "sql") ||
        str_eq(e, "graphql") ||
        str_eq(e, "gql") ||
        str_eq(e, "log") ||
        str_eq(e, "ini") ||
        str_eq(e, "cfg") ||
        str_eq(e, "conf") ||
        str_eq(e, "env") ||
        str_eq(e, "gitignore") ||
        str_eq(e, "dockerignore") ||
        str_eq(e, "editorconfig") ||
        str_eq(e, "properties") ||
        str_eq(e, "makefile") ||
        str_eq(e, "cmake") ||
        str_eq(e, "dockerfile") ||
        str_eq(e, "csv") ||
        str_eq(e, "tsv") {
        "text"
    } else if str_eq(e, "pdf") {
        "pdf"
    } else if str_eq(e, "docx") {
        "docx"
    } else {
        "none"
    }
}

/// Determine the parser type for a given file extension, compared without
/// regard to case.
pub fn parser_type_for_extension(ext: &str) -> (r: &'static str)
    ensures
        r@ == parser_type_name(unicode_lowercase(ext@)),
        vstd::utf8::is_ascii_chars(ext@) ==> r@ == parser_type_name(ascii_lower(ext@)),
{
    let lower = to_lowercase(ext);
    parser_type_for_lowercase(lower.as_str())
}

} // verus!

verus! {

/// For an ASCII extension the letter case does not matter: lower-casing it
/// first gives the same parser type, since ASCII lower-casing keeps it ASCII
/// and changes nothing a second time. (With `parser_type_for_extension`'s
/// contract for ASCII input, both calls give `parser_type_name(ascii_lower(e))`.)
pub proof fn ascii_case_does_not_matter(e: Seq<char>)
    requires
        vstd::utf8::is_ascii_chars(e),
    ensures
        vstd::utf8::is_ascii_chars(ascii_lower(e)),
        ascii_lower(ascii_lower(e)) == ascii_lower(e),
        parser_type_name(ascii_lower(ascii_lower(e))) == parser_type_name(ascii_lower(e)),
{
    let l = ascii_lower(e);
    assert forall|i: int| 0 <= i < l.len() implies '\0' <= #[trigger] l[i] <= '\u{7f}' by {
        assert(e[i] <= '\u{7f}');
        if 'A' <= e[i] && e[i] <= 'Z' {
            assert(l[i] == ((e[i] as u32) + 32) as char);
        }
    }
    assert forall|i: int| 0 <= i < l.len() implies #[trigger] ascii_lower(l)[i] == l[i] by {
        if 'A' <= e[i] && e[i] <= 'Z' {
            assert(l[i] == ((e[i] as u32) + 32) as char);
            assert(!('A' <= l[i] && l[i] <= 'Z'));
        }
    }
    assert(ascii_lower(l) =~= l);
}

} // verus!

verus! {

/// The documented extensions of text, code, configuration, script and data
/// formats have their content read as text; `pdf` and `docx` have their own
/// extractors.
pub proof fn documented_extensions_are_classified()
    ensures
        parser_type_name("txt"@) == "text"@,
        parser_type_name("md"@) == "text"@,
        parser_type_name("markdown"@) == "text"@,
        parser_type_name("rst"@) == "text"@,
        parser_type_name("rs"@) == "text"@,
        parser_type_name("py"@) == "text"@,
        parser_type_name("js"@) == "text"@,
        parser_type_name("ts"@) == "text"@,
        parser_type_name("tsx"@) == "text"@,
        parser_type_name("jsx"@) == "text"@,
        parser_type_name("java"@) == "text"@,
        parser_type_name("c"@) == "text"@,
        parser_type_name("cpp"@) == "text"@,
        parser_type_name("h"@) == "text"@,
        parser_type_name("hpp"@) == "text"@,
        parser_type_name("cs"@) == "text"@,
        parser_type_name("go"@) == "text"@,
        parser_type_name("rb"@) == "text"@,
        parser_type_name("php"@) == "text"@,
        parser_type_name("swift"@) == "text"@,
        parser_type_name("kt"@) == "text"@,
        parser_type_name("scala"@) == "text"@,
        parser_type_name("r"@) == "text"@,
        parser_type_name("lua"@) == "text"@,
        parser_type_name("pl"@) == "text"@,
        parser_type_name("pm"@) == "text"@,
        parser_type_name("json"@) == "text"@,
        parser_type_name("yaml"@) == "text"@,
        parser_type_name("yml"@) == "text"@,
        parser_type_name("toml"@) == "text"@,
        parser_type_name("xml"@) == "text"@,
        parser_type_name("html"@) == "text"@,
        parser_type_name("htm"@) == "text"@,
        parser_type_name("css"@) == "text"@,
        parser_type_name("scss"@) == "text"@,
        parser_type_name("sass"@) == "text"@,
        parser_type_name("less"@) == "text"@,
        parser_type_name("svg"@) == "text"@,
        parser_type_name("sh"@) == "text"@,
        parser_type_name("bash"@) == "text"@,
        parser_type_name("zsh"@) == "text"@,
        parser_type_name("fish"@) == "text"@,
        parser_type_name("bat"@) == "text"@,
        parser_type_name("cmd"@) == "text"@,
        parser_type_name("ps1"@) == "text"@,
        parser_type_name("psm1"@) == "text"@,
        parser_type_name("sql"@) == "text"@,
        parser_type_name("graphql"@) == "text"@,
        parser_type_name("gql"@) == "text"@,
        parser_type_name("log"@) == "text"@,
        parser_type_name("ini"@) == "text"@,
        parser_type_name("cfg"@) == "text"@,
        parser_type_name("conf"@) == "text"@,
        parser_type_name("env"@) == "text"@,
        parser_type_name("gitignore"@) == "text"@,
        parser_type_name("dockerignore"@) == "text"@,
        parser_type_name("editorconfig"@) == "text"@,
        parser_type_name("properties"@) == "text"@,
        parser_type_name("makefile"@) == "text"@,
        parser_type_name("cmake"@) == "text"@,
        parser_type_name("dockerfile"@) == "text"@,
        parser_type_name("csv"@) == "text"@,
        parser_type_name("tsv"@) == "text"@,
        parser_type_name("pdf"@) == "pdf"@,
        parser_type_name("docx"@) == "docx"@,
{
    reveal_strlit("txt");
    reveal_strlit("md");
    reveal_strlit("markdown");
    reveal_strlit("rst");
    reveal_strlit("rs");
    reveal_strlit("py");
    reveal_strlit("js");
    reveal_strlit("ts");
    reveal_strlit("tsx");
    reveal_strlit("jsx");
    reveal_strlit("java");
    reveal_strlit("c");
    reveal_strlit("cpp");
    reveal_strlit("h");
    reveal_strlit("hpp");
    reveal_strlit("cs");
    reveal_strlit("go");
    reveal_strlit("rb");
    reveal_strlit("php");
    reveal_strlit("swift");
    reveal_strlit("kt");
    reveal_strlit("scala");
    reveal_strlit("r");
    reveal_strlit("lua");
    reveal_strlit("pl");
    reveal_strlit("pm");
    reveal_strlit("json");
    reveal_strlit("yaml");
    reveal_strlit("yml");
    reveal_strlit("toml");
    reveal_strlit("xml");
    reveal_strlit("html");
    reveal_strlit("htm");
    reveal_strlit("css");
    reveal_strlit("scss");
    reveal_strlit("sass");
    reveal_strlit("less");
    reveal_strlit("svg");
    reveal_strlit("sh");
    reveal_strlit("bash");
    reveal_strlit("zsh");
    reveal_strlit("fish");
    reveal_strlit("bat");
    reveal_strlit("cmd");
    reveal_strlit("ps1");
    reveal_strlit("psm1");
    reveal_strlit("sql");
    reveal_strlit("graphql");
    reveal_strlit("gql");
    reveal_strlit("log");
    reveal_strlit("ini");
    reveal_strlit("cfg");
    reveal_strlit("conf");
    reveal_strlit("env");
    reveal_strlit("gitignore");
    reveal_strlit("dockerignore");
    reveal_strlit("editorconfig");
    reveal_strlit("properties");
    reveal_strlit("makefile");
    reveal_strlit("cmake");
    reveal_strlit("dockerfile");
    reveal_strlit("csv");
    reveal_strlit("tsv");
    reveal_strlit("pdf");
    reveal_strlit("docx");
    assert("txt"@[0] != "pdf"@[0]);
    assert("md"@.len() != "pdf"@.len());
    assert("markdown"@.len() != "pdf"@.len());
    assert("rst"@[0] != "pdf"@[0]);
    assert("rs"@.len() != "pdf"@.len());
    assert("py"@.len() != "pdf"@.len());
    assert("js"@.len() != "pdf"@.len());
    assert("ts"@.len() != "pdf"@.len());
    assert("tsx"@[0] != "pdf"@[0]);
    assert("jsx"@[0] != "pdf"@[0]);
    assert("java"@.len() != "pdf"@.len());
    assert("c"@.len() != "pdf"@.len());
    assert("cpp"@[0] != "pdf"@[0]);
    assert("h"@.len() != "pdf"@.len());
    assert("hpp"@[0] != "pdf"@[0]);
    assert("cs"@.len() != "pdf"@.len());
    assert("go"@.len() != "pdf"@.len());
    assert("rb"@.len() != "pdf"@.len());
    assert("php"@[1] != "pdf"@[1]);
    assert("swift"@.len() != "pdf"@.len());
    assert("kt"@.len() != "pdf"@.len());
    assert("scala"@.len() != "pdf"@.len());
    assert("r"@.len() != "pdf"@.len());
    assert("lua"@[0] != "pdf"@[0]);
    assert("pl"@.len() != "pdf"@.len());
    assert("pm"@.len() != "pdf"@.len());
    assert("json"@.len() != "pdf"@.len());
    assert("yaml"@.len() != "pdf"@.len());
    assert("yml"@[0] != "pdf"@[0]);
    assert("toml"@.len() != "pdf"@.len());
    assert("xml"@[0] != "pdf"@[0]);
    assert("html"@.len() != "pdf"@.len());
    assert("htm"@[0] != "pdf"@[0]);
    assert("css"@[0] != "pdf"@[0]);
    assert("scss"@.len() != "pdf"@.len());
    assert("sass"@.len() != "pdf"@.len());
    assert("less"@.len() != "pdf"@.len());
    assert("svg"@[0] != "pdf"@[0]);
    assert("sh"@.len() != "pdf"@.len());
    assert("bash"@.len() != "pdf"@.len());
    assert("zsh"@[0] != "pdf"@[0]);
    assert("fish"@.len() != "pdf"@.len());
    assert("bat"@[0] != "pdf"@[0]);
    assert("cmd"@[0] != "pdf"@[0]);
    assert("ps1"@[1] != "pdf"@[1]);
    assert("psm1"@.len() != "pdf"@.len());
    assert("sql"@[0] != "pdf"@[0]);
    assert("graphql"@.len() != "pdf"@.len());
    assert("gql"@[0] != "pdf"@[0]);
    assert("log"@[0] != "pdf"@[0]);
    assert("ini"@[0] != "pdf"@[0]);
    assert("cfg"@[0] != "pdf"@[0]);
    assert("conf"@.len() != "pdf"@.len());
    assert("env"@[0] != "pdf"@[0]);
    assert("gitignore"@.len() != "pdf"@.len());
    assert("dockerignore"@.len() != "pdf"@.len());
    assert("editorconfig"@.len() != "pdf"@.len());
    assert("properties"@.len() != "pdf"@.len());
    assert("makefile"@.len() != "pdf"@.len());
    assert("cmake"@.len() != "pdf"@.len());
    assert("dockerfile"@.len() != "pdf"@.len());
    assert("csv"@[0] != "pdf"@[0]);
    assert("tsv"@[0] != "pdf"@[0]);
    assert("txt"@.len() != "docx"@.len());
    assert("md"@.len() != "docx"@.len());
    assert("markdown"@.len() != "docx"@.len());
    assert("rst"@.len() != "docx"@.len());
    assert("rs"@.len() != "docx"@.len());
    assert("py"@.len() != "docx"@.len());
    assert("js"@.len() != "docx"@.len());
    assert("ts"@.len() != "docx"@.len());
    assert("tsx"@.len() != "docx"@.len());
    assert("jsx"@.len() != "docx"@.len());
    assert("java"@[0] != "docx"@[0]);
    assert("c"@.len() != "docx"@.len());
    assert("cpp"@.len() != "docx"@.len());
    assert("h"@.len() != "docx"@.len());
    assert("hpp"@.len() != "docx"@.len());
    assert("cs"@.len() != "docx"@.len());
    assert("go"@.len() != "docx"@.len());
    assert("rb"@.len() != "docx"@.len());
    assert("php"@.len() != "docx"@.len());
    assert("swift"@.len() != "docx"@.len());
    assert("kt"@.len() != "docx"@.len());
    assert("scala"@.len() != "docx"@.len());
    assert("r"@.len() != "docx"@.len());
    assert("lua"@.len() != "docx"@.len());
    assert("pl"@.len() != "docx"@.len());
    assert("pm"@.len() != "docx"@.len());
    assert("json"@[0] != "docx"@[0]);
    assert("yaml"@[0] != "docx"@[0]);
    assert("yml"@.len() != "docx"@.len());
    assert("toml"@[0] != "docx"@[0]);
    assert("xml"@.len() != "docx"@.len());
    assert("html"@[0] != "docx"@[0]);
    assert("htm"@.len() != "docx"@.len());
    assert("css"@.len() != "docx"@.len());
    assert("scss"@[0] != "docx"@[0]);
    assert("sass"@[0] != "docx"@[0]);
    assert("less"@[0] != "docx"@[0]);
    assert("svg"@.len() != "docx"@.len());
    assert("sh"@.len() != "docx"@.len());
    assert("bash"@[0] != "docx"@[0]);
    assert("zsh"@.len() != "docx"@.len());
    assert("fish"@[0] != "docx"@[0]);
    assert("bat"@.len() != "docx"@.len());
    assert("cmd"@.len() != "docx"@.len());
    assert("ps1"@.len() != "docx"@.len());
    assert("psm1"@[0] != "docx"@[0]);
    assert("sql"@.len() != "docx"@.len());
    assert("graphql"@.len() != "docx"@.len());
    assert("gql"@.len() != "docx"@.len());
    assert("log"@.len() != "docx"@.len());
    assert("ini"@.len() != "docx"@.len());
    assert("cfg"@.len() != "docx"@.len());
    assert("conf"@[0] != "docx"@[0]);
    assert("env"@.len() != "docx"@.len());
    assert("gitignore"@.len() != "docx"@.len());
    assert("dockerignore"@.len() != "docx"@.len());
    assert("editorconfig"@.len() != "docx"@.len());
    assert("properties"@.len() != "docx"@.len());
    assert("makefile"@.len() != "docx"@.len());
    assert("cmake"@.len() != "docx"@.len());
    assert("dockerfile"@.len() != "docx"@.len());
    assert("csv"@.len() != "docx"@.len());
    assert("tsv"@.len() != "docx"@.len());
    assert("pdf"@.len() != "docx"@.len());
}

} // verus!
