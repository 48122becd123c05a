//! Which language a file is highlighted as, judged by its extension.

use crate::text::after_last;
use crate::text::chars_equal;
use crate::text::chars_slice;
use crate::text::file_name;
use crate::text::find_after_last;
use crate::text::find_file_name_start;
use crate::text::str_chars;
use vstd::prelude::*;

verus! {

/// The languages with syntax highlighting.
#[derive(Debug, Clone, Copy, PartialEq, Eq, Hash, Structural)]
pub enum SyntaxLanguage {
    Rust,
    TypeScript,
    JavaScript,
    Python,
    Go,
    Ruby,
    Swift,
    Kotlin,
    Java,
    Php,
    CSharp,
    Cpp,
    C,
    Haskell,
    Dart,
    Scala,
    Clojure,
    Zig,
    Elixir,
    Erlang,
    Html,
    Css,
    Json,
    Markdown,
    Yaml,
    Xml,
}

/// The extension of a path: what follows the last `.` of its file name.
/// A file name without `.`, or with its only `.` in front, has none.
pub open spec fn extension(path: Seq<char>) -> Option<Seq<char>> {
    let name = file_name(path);
    let dot = after_last(name, '.');
    if dot <= 1 {
        None
    } else {
        Some(name.subrange(dot as int, name.len() as int))
    }
}

/// The extensions that are known, each with its language. Extensions are
/// case-sensitive.
pub open spec fn extension_table() -> Seq<(Seq<char>, SyntaxLanguage)> {
    seq![
        ("rs"@, SyntaxLanguage::Rust),
        ("ts"@, SyntaxLanguage::TypeScript),
        ("tsx"@, SyntaxLanguage::TypeScript),
        ("js"@, SyntaxLanguage::JavaScript),
        ("jsx"@, SyntaxLanguage::JavaScript),
        ("mjs"@, SyntaxLanguage::JavaScript),
        ("cjs"@, SyntaxLanguage::JavaScript),
        ("py"@, SyntaxLanguage::Python),
        ("pyw"@, SyntaxLanguage::Python),
        ("go"@, SyntaxLanguage::Go),
        ("rb"@, SyntaxLanguage::Ruby),
        ("rbw"@, SyntaxLanguage::Ruby),
        ("rake"@, SyntaxLanguage::Ruby),
        ("gemspec"@, SyntaxLanguage::Ruby),
        ("swift"@, SyntaxLanguage::Swift),
        ("kt"@, SyntaxLanguage::Kotlin),
        ("kts"@, SyntaxLanguage::Kotlin),
        ("java"@, SyntaxLanguage::Java),
        ("php"@, SyntaxLanguage::Php),
        ("php3"@, SyntaxLanguage::Php),
        ("php4"@, SyntaxLanguage::Php),
        ("php5"@, SyntaxLanguage::Php),
        ("phtml"@, SyntaxLanguage::Php),
        ("cs"@, SyntaxLanguage::CSharp),
        ("csx"@, SyntaxLanguage::CSharp),
        ("cpp"@, SyntaxLanguage::Cpp),
        ("cc"@, SyntaxLanguage::Cpp),
        ("cxx"@, SyntaxLanguage::Cpp),
        ("c++"@, SyntaxLanguage::Cpp),
        ("C"@, SyntaxLanguage::Cpp),
        ("CPP"@, SyntaxLanguage::Cpp),
        ("hpp"@, SyntaxLanguage::Cpp),
        ("hh"@, SyntaxLanguage::Cpp),
        ("hxx"@, SyntaxLanguage::Cpp),
        ("h++"@, SyntaxLanguage::Cpp),
        ("H"@, SyntaxLanguage::Cpp),
        ("HPP"@, SyntaxLanguage::Cpp),
        ("tcc"@, SyntaxLanguage::Cpp),
        ("inl"@, SyntaxLanguage::Cpp),
        ("c"@, SyntaxLanguage::C),
        ("h"@, SyntaxLanguage::C),
        ("hs"@, SyntaxLanguage::Haskell),
        ("lhs"@, SyntaxLanguage::Haskell),
        ("dart"@, SyntaxLanguage::Dart),
        ("scala"@, SyntaxLanguage::Scala),
        ("sc"@, SyntaxLanguage::Scala),
        ("sbt"@, SyntaxLanguage::Scala),
        ("clj"@, SyntaxLanguage::Clojure),
        ("cljs"@, SyntaxLanguage::Clojure),
        ("cljc"@, SyntaxLanguage::Clojure),
        ("edn"@, SyntaxLanguage::Clojure),
        ("zig"@, SyntaxLanguage::Zig),
        ("ex"@, SyntaxLanguage::Elixir),
        ("exs"@, SyntaxLanguage::Elixir),
        ("erl"@, SyntaxLanguage::Erlang),
        ("hrl"@, SyntaxLanguage::Erlang),
        ("es"@, SyntaxLanguage::Erlang),
        ("escript"@, SyntaxLanguage::Erlang),
        ("html"@, SyntaxLanguage::Html),
        ("htm"@, SyntaxLanguage::Html),
        ("css"@, SyntaxLanguage::Css),
        ("scss"@, SyntaxLanguage::Css),
        ("sass"@, SyntaxLanguage::Css),
        ("json"@, SyntaxLanguage::Json),
        ("jsonc"@, SyntaxLanguage::Json),
        ("md"@, SyntaxLanguage::Markdown),
        ("markdown"@, SyntaxLanguage::Markdown),
        ("yaml"@, SyntaxLanguage::Yaml),
        ("yml"@, SyntaxLanguage::Yaml),
        ("xml"@, SyntaxLanguage::Xml),
        ("svg"@, SyntaxLanguage::Xml),
        ("xsl"@, SyntaxLanguage::Xml),
        ("xslt"@, SyntaxLanguage::Xml),
    ]
}

/// The language of the first entry of `table` whose extension is `ext`.
pub open spec fn lookup(table: Seq<(Seq<char>, SyntaxLanguage)>, ext: Seq<char>) -> Option<
    SyntaxLanguage,
>
    decreases table.len(),
{
    if table.len() == 0 {
        None
    } else if table[0].0 == ext {
        Some(table[0].1)
    } else {
        lookup(table.drop_first(), ext)
    }
}

/// The language of a path: that of its extension, if the extension is known.
pub open spec fn language_of(path: Seq<char>) -> Option<SyntaxLanguage> {
    match extension(path) {
        Some(ext) => lookup(extension_table(), ext),
        None => None,
    }
}

proof fn lemma_lookup(table: Seq<(Seq<char>, SyntaxLanguage)>, ext: Seq<char>, n: int)
    requires
        0 <= n <= table.len(),
        forall|k: int| 0 <= k < n ==> table[k].0 != ext,
        n < table.len() ==> table[n].0 == ext,
    ensures
        lookup(table, ext) == if n < table.len() {
            Some(table[n].1)
        } else {
            None
        },
    decreases n,
{
    if n > 0 {
        let rest = table.drop_first();
        assert forall|k: int| 0 <= k < n - 1 implies rest[k].0 != ext by {
            assert(rest[k] == table[k + 1]);
        }
        assert(table[0].0 != ext);
        if n < table.len() {
            assert(rest[n - 1] == table[n]);
        }
        lemma_lookup(rest, ext, n - 1);
    }
}

fn known_extensions() -> (res: Vec<(&'static str, SyntaxLanguage)>)
    ensures
        res@.len() == extension_table().len(),
        forall|i: int|
            0 <= i < res@.len() ==> (#[trigger] res@[i]).0@ == extension_table()[i].0 && res@[i].1
                == extension_table()[i].1,
{
    vec![
        ("rs", SyntaxLanguage::Rust),
        ("ts", SyntaxLanguage::TypeScript),
        ("tsx", SyntaxLanguage::TypeScript),
        ("js", SyntaxLanguage::JavaScript),
        ("jsx", SyntaxLanguage::JavaScript),
        ("mjs", SyntaxLanguage::JavaScript),
        ("cjs", SyntaxLanguage::JavaScript),
        ("py", SyntaxLanguage::Python),
        ("pyw", SyntaxLanguage::Python),
        ("go", SyntaxLanguage::Go),
        ("rb", SyntaxLanguage::Ruby),
        ("rbw", SyntaxLanguage::Ruby),
        ("rake", SyntaxLanguage::Ruby),
        ("gemspec", SyntaxLanguage::Ruby),
        ("swift", SyntaxLanguage::Swift),
        ("kt", SyntaxLanguage::Kotlin),
        ("kts", SyntaxLanguage::Kotlin),
        ("java", SyntaxLanguage::Java),
        ("php", SyntaxLanguage::Php),
        ("php3", SyntaxLanguage::Php),
        ("php4", SyntaxLanguage::Php),
        ("php5", SyntaxLanguage::Php),
        ("phtml", SyntaxLanguage::Php),
        ("cs", SyntaxLanguage::CSharp),
        ("csx", SyntaxLanguage::CSharp),
        ("cpp", SyntaxLanguage::Cpp),
        ("cc", SyntaxLanguage::Cpp),
        ("cxx", SyntaxLanguage::Cpp),
        ("c++", SyntaxLanguage::Cpp),
        ("C", SyntaxLanguage::Cpp),
        ("CPP", SyntaxLanguage::Cpp),
        ("hpp", SyntaxLanguage::Cpp),
        ("hh", SyntaxLanguage::Cpp),
        ("hxx", SyntaxLanguage::Cpp),
        ("h++", SyntaxLanguage::Cpp),
        ("H", SyntaxLanguage::Cpp),
        ("HPP", SyntaxLanguage::Cpp),
        ("tcc", SyntaxLanguage::Cpp),
        ("inl", SyntaxLanguage::Cpp),
        ("c", SyntaxLanguage::C),
        ("h", SyntaxLanguage::C),
        ("hs", SyntaxLanguage::Haskell),
        ("lhs", SyntaxLanguage::Haskell),
        ("dart", SyntaxLanguage::Dart),
        ("scala", SyntaxLanguage::Scala),
        ("sc", SyntaxLanguage::Scala),
        ("sbt", SyntaxLanguage::Scala),
        ("clj", SyntaxLanguage::Clojure),
        ("cljs", SyntaxLanguage::Clojure),
        ("cljc", SyntaxLanguage::Clojure),
        ("edn", SyntaxLanguage::Clojure),
        ("zig", SyntaxLanguage::Zig),
        ("ex", SyntaxLanguage::Elixir),
        ("exs", SyntaxLanguage::Elixir),
        ("erl", SyntaxLanguage::Erlang),
        ("hrl", SyntaxLanguage::Erlang),
        ("es", SyntaxLanguage::Erlang),
        ("escript", SyntaxLanguage::Erlang),
        ("html", SyntaxLanguage::Html),
        ("htm", SyntaxLanguage::Html),
        ("css", SyntaxLanguage::Css),
        ("scss", SyntaxLanguage::Css),
        ("sass", SyntaxLanguage::Css),
        ("json", SyntaxLanguage::Json),
        ("jsonc", SyntaxLanguage::Json),
        ("md", SyntaxLanguage::Markdown),
        ("markdown", SyntaxLanguage::Markdown),
        ("yaml", SyntaxLanguage::Yaml),
        ("yml", SyntaxLanguage::Yaml),
        ("xml", SyntaxLanguage::Xml),
        ("svg", SyntaxLanguage::Xml),
        ("xsl", SyntaxLanguage::Xml),
        ("xslt", SyntaxLanguage::Xml),
    ]
}

/// The language a file is highlighted as, or `None` where its extension is
/// missing or unknown.
pub fn get_language(path: &str) -> (res: Option<SyntaxLanguage>)
    ensures
        res == language_of(path@),
{
    let chars = str_chars(path);
    let start = find_file_name_start(&chars);
    let name = chars_slice(&chars, start, chars.len());
    let dot = find_after_last(&name, '.');
    if dot <= 1 {
        return None;
    }
    let ext = chars_slice(&name, dot, name.len());
    let table = known_extensions();
    let mut i: usize = 0;
    assert(extension(path@) == Some(ext@));
    while i < table.len()
        invariant
            i <= table.len(),
            extension(path@) == Some(ext@),
            table@.len() == extension_table().len(),
            forall|k: int|
                0 <= k < table@.len() ==> (#[trigger] table@[k]).0@ == extension_table()[k].0
                    && table@[k].1 == extension_table()[k].1,
            forall|k: int| 0 <= k < i ==> extension_table()[k].0 != ext@,
        decreases table.len() - i,
    {
        let candidate = str_chars(table[i].0);
        assert(candidate@ == extension_table()[i as int].0) by {
            assert(table@[i as int].0@ == extension_table()[i as int].0);
        }
        if chars_equal(&ext, &candidate) {
            proof {
                assert(table@[i as int].0@ == extension_table()[i as int].0);
                assert(table@[i as int].1 == extension_table()[i as int].1);
                lemma_lookup(extension_table(), ext@, i as int);
            }
            return Some(table[i].1);
        }
        i += 1;
    }
    proof {
        lemma_lookup(extension_table(), ext@, i as int);
    }
    None
}

} // verus!
