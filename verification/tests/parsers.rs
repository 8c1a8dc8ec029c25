use agentmap::analyze::imports::extract_go_package_name;
use agentmap::analyze::lang::{
    get_parser, CParser, CSharpParser, CppParser, DartParser, GoParser, JavaParser,
    JavaScriptParser, LanguageParser, PhpParser, PythonParser, RubyParser, RustParser,
    SwiftParser,
};
use agentmap::analyze::{extract_imports, extract_symbols};
use agentmap::types::{FileEntry, Language, Symbol, SymbolKind, Visibility};

fn brief(symbols: &[Symbol]) -> Vec<(SymbolKind, String, Visibility, usize, usize)> {
    symbols
        .iter()
        .map(|s| (s.kind, s.name.clone(), s.visibility, s.line_range.start, s.line_range.end))
        .collect()
}

fn row(
    kind: SymbolKind,
    name: &str,
    visibility: Visibility,
    start: usize,
    end: usize,
) -> (SymbolKind, String, Visibility, usize, usize) {
    (kind, name.to_string(), visibility, start, end)
}

fn assert_ordered(symbols: &[Symbol]) {
    for pair in symbols.windows(2) {
        assert!(pair[0].line_range.start <= pair[1].line_range.start);
    }
    for (i, a) in symbols.iter().enumerate() {
        for b in &symbols[i + 1..] {
            assert!(!(a.name == b.name && a.line_range.start == b.line_range.start));
        }
    }
}

#[test]
fn rust_functions_are_found_with_visibility() {
    let src = "pub fn foo() {}\n\nfn helper() {\n    let s = \"}\";\n}\n";
    let symbols = RustParser.parse_symbols(src);
    assert_eq!(symbols.len(), 2);
    assert_eq!(symbols[0].name, "foo");
    assert_eq!(symbols[0].kind, SymbolKind::Function);
    assert_eq!(symbols[0].visibility, Visibility::Public);
    assert_eq!(symbols[0].line_range.start, 1);
    assert_eq!(symbols[0].line_range.end, 1);
    assert_eq!(symbols[0].signature.as_deref(), Some("pub fn foo() {}"));
    assert_eq!(symbols[1].name, "helper");
    assert_eq!(symbols[1].visibility, Visibility::Private);
    assert_eq!(symbols[1].line_range.start, 3);
    assert_eq!(symbols[1].line_range.end, 5);
}

#[test]
fn rust_items_of_every_kind() {
    let src = "pub struct Point {\n    x: i32,\n}\n\nenum Shape {\n    Dot,\n}\n\npub(crate) trait Draw {\n    fn draw(&self);\n}\n\npub const LIMIT: usize = 3;\ntype Alias = Point;\n    pub async fn run() {\n    }\n";
    let symbols = RustParser.parse_symbols(src);
    assert_eq!(
        brief(&symbols),
        vec![
            row(SymbolKind::Struct, "Point", Visibility::Public, 1, 3),
            row(SymbolKind::Enum, "Shape", Visibility::Private, 5, 7),
            row(SymbolKind::Trait, "Draw", Visibility::Public, 9, 11),
            row(SymbolKind::Function, "draw", Visibility::Private, 10, 10),
            row(SymbolKind::Const, "LIMIT", Visibility::Public, 13, 13),
            row(SymbolKind::Type, "Alias", Visibility::Private, 14, 14),
            row(SymbolKind::Function, "run", Visibility::Public, 15, 16),
        ]
    );
    assert!(symbols[0].signature.is_none());
    assert_eq!(symbols[6].signature.as_deref(), Some("pub async fn run() {"));
    assert_ordered(&symbols);
}

#[test]
fn text_without_declarations_has_no_symbols() {
    assert!(RustParser.parse_symbols("").is_empty());
    assert!(RustParser.parse_symbols("let x = 1;\n// nothing here\n").is_empty());
    assert!(PythonParser.parse_symbols("x = 1\n").is_empty());
}

#[test]
fn unknown_language_has_no_parser() {
    assert!(get_parser(Language::Unknown).is_none());
    for language in [
        Language::Rust,
        Language::Python,
        Language::JavaScript,
        Language::TypeScript,
        Language::Go,
        Language::Php,
        Language::Java,
        Language::CSharp,
        Language::C,
        Language::Cpp,
        Language::Ruby,
        Language::Dart,
        Language::Swift,
    ] {
        assert!(get_parser(language).is_some());
    }
}

#[test]
fn symbols_of_a_file_follow_its_language() {
    let rust = FileEntry::new("/p/src/a.rs".to_string(), "src/a.rs".to_string(), 10, 1, 500);
    let text = FileEntry::new("/p/notes.txt".to_string(), "notes.txt".to_string(), 10, 1, 500);
    let ts = FileEntry::new("/p/a.ts".to_string(), "a.ts".to_string(), 10, 1, 500);
    let src = "pub fn foo() {}\nexport function bar() {}\n";
    assert_eq!(brief(&extract_symbols(&rust, src)), vec![row(SymbolKind::Function, "foo", Visibility::Public, 1, 1)]);
    assert!(extract_symbols(&text, src).is_empty());
    assert_eq!(brief(&extract_symbols(&ts, src)), vec![row(SymbolKind::Function, "bar", Visibility::Public, 2, 2)]);
    assert!(extract_imports(&rust, src).is_empty());
}

#[test]
fn c_functions_structs_and_enums() {
    let src = "static int helper(int a) {\n    if (a) {\n        return 1;\n    }\n    return 0;\n}\n\nint main(void);\n\ntypedef struct {\n    int x;\n} point_t;\n\nenum color {\n    RED\n};\n\ntypedef unsigned long size_type;\n";
    let symbols = CParser.parse_symbols(src);
    assert_eq!(
        brief(&symbols),
        vec![
            row(SymbolKind::Function, "helper", Visibility::Private, 1, 6),
            row(SymbolKind::Function, "main", Visibility::Public, 8, 8),
            row(SymbolKind::Struct, "anonymous", Visibility::Public, 10, 12),
            row(SymbolKind::Enum, "color", Visibility::Public, 14, 16),
            row(SymbolKind::Type, "size_type", Visibility::Public, 18, 18),
        ]
    );
    assert_eq!(symbols[0].signature.as_deref(), Some("static int helper(int a)"));
    assert_eq!(symbols[1].signature.as_deref(), Some("int main(void)"));
    assert_eq!(symbols[2].signature.as_deref(), Some("struct anonymous"));
    assert_eq!(symbols[3].signature.as_deref(), Some("enum color"));
    assert!(symbols[4].signature.is_none());
}

#[test]
fn control_flow_is_no_function() {
    let src = "else if (x) {\n}\nvoid run(int n) {\n}\n";
    let symbols = CParser.parse_symbols(src);
    assert_eq!(brief(&symbols), vec![row(SymbolKind::Function, "run", Visibility::Public, 3, 4)]);
}

#[test]
fn cpp_classes_namespaces_and_methods() {
    let src = "namespace geo {\nclass Shape : public Base {\npublic:\n    virtual double area() const;\n};\nstruct Point {\n    int x;\n};\nenum class Color {\n    Red\n};\n}\ndouble Shape::area() const {\n    return 0;\n}\nstatic int helper(int a) {\n    return a;\n}\n";
    let symbols = CppParser.parse_symbols(src);
    assert_eq!(
        brief(&symbols),
        vec![
            row(SymbolKind::Module, "geo", Visibility::Public, 1, 12),
            row(SymbolKind::Class, "Shape", Visibility::Public, 2, 5),
            row(SymbolKind::Method, "area", Visibility::Public, 4, 4),
            row(SymbolKind::Struct, "Point", Visibility::Public, 6, 8),
            row(SymbolKind::Enum, "Color", Visibility::Public, 9, 11),
            row(SymbolKind::Method, "Shape::area", Visibility::Public, 13, 15),
            row(SymbolKind::Function, "helper", Visibility::Private, 16, 18),
        ]
    );
    assert_eq!(symbols[1].signature.as_deref(), Some("class Shape"));
    assert_eq!(symbols[2].signature.as_deref(), Some("virtual double area() const"));
    assert_eq!(symbols[3].signature.as_deref(), Some("struct Point"));
    assert_eq!(symbols[0].signature.as_deref(), Some("namespace geo"));
    assert_eq!(symbols[5].signature.as_deref(), Some("double Shape::area() const"));
}

#[test]
fn python_blocks_end_by_indentation() {
    let src = "import os\nfrom collections.abc import Mapping\nimport os.path\n\nclass Greeter:\n    def __init__(self):\n        self.name = 'x'\n\n    # a comment\n    def _hidden(self):\n        pass\n\nasync def run(a):\n    return a\n\ndef __mangled():\n    pass\n";
    let symbols = PythonParser.parse_symbols(src);
    assert_eq!(
        brief(&symbols),
        vec![
            row(SymbolKind::Class, "Greeter", Visibility::Public, 5, 11),
            row(SymbolKind::Function, "__init__", Visibility::Public, 6, 7),
            row(SymbolKind::Function, "_hidden", Visibility::Private, 10, 11),
            row(SymbolKind::Function, "run", Visibility::Public, 13, 14),
            row(SymbolKind::Function, "__mangled", Visibility::Public, 16, 17),
        ]
    );
    assert_eq!(symbols[1].signature.as_deref(), Some("def __init__(self):"));
    assert_eq!(symbols[0].signature.as_deref(), Some("class Greeter:"));
    assert_eq!(PythonParser.parse_imports(src), vec!["os".to_string(), "collections".to_string()]);
}

#[test]
fn go_visibility_is_by_capital() {
    let src = "package main\n\nimport \"fmt\"\n\nimport (\n\t\"os\"\n\t\"net/http\"\n\t\"fmt\"\n)\n\ntype Server struct {\n\tport int\n}\n\ntype handler interface {\n\tServe()\n}\n\nconst Version = \"1\"\n\nfunc (s *Server) Start() {\n\tfmt.Println()\n}\n\nfunc helper() {\n}\n\nfunc Émile() {\n}\n";
    let symbols = GoParser.parse_symbols(src);
    assert_eq!(
        brief(&symbols),
        vec![
            row(SymbolKind::Struct, "Server", Visibility::Public, 11, 13),
            row(SymbolKind::Interface, "handler", Visibility::Private, 15, 17),
            row(SymbolKind::Const, "Version", Visibility::Public, 19, 19),
            row(SymbolKind::Function, "Start", Visibility::Public, 21, 23),
            row(SymbolKind::Function, "helper", Visibility::Private, 25, 26),
            row(SymbolKind::Function, "Émile", Visibility::Public, 28, 29),
        ]
    );
    assert_eq!(symbols[3].signature.as_deref(), Some("func (s *Server) Start() {"));
    assert_eq!(
        GoParser.parse_imports(src),
        vec!["fmt".to_string(), "os".to_string(), "http".to_string()]
    );
}

#[test]
fn go_package_name_is_the_last_part() {
    assert_eq!(extract_go_package_name("net/http"), "http");
    assert_eq!(extract_go_package_name("fmt"), "fmt");
    assert_eq!(extract_go_package_name("github.com/a/b/"), "");
    assert_eq!(extract_go_package_name(""), "");
}

#[test]
fn javascript_functions_classes_and_types() {
    let src = "export function load(a) {\n  return a;\n}\nclass Local {\n}\nexport default class View {\n}\nexport const add = (a, b) => {\n  return a + b;\n};\nconst id = x => x;\nexport interface Shape {\n  area(): number;\n}\ntype Pair = [number, number];\n";
    let symbols = JavaScriptParser.parse_symbols(src);
    assert_eq!(
        brief(&symbols),
        vec![
            row(SymbolKind::Function, "load", Visibility::Public, 1, 3),
            row(SymbolKind::Class, "Local", Visibility::Private, 4, 5),
            row(SymbolKind::Class, "View", Visibility::Public, 6, 7),
            row(SymbolKind::Function, "add", Visibility::Public, 8, 10),
            row(SymbolKind::Function, "id", Visibility::Private, 11, 11),
            row(SymbolKind::Interface, "Shape", Visibility::Public, 12, 14),
            row(SymbolKind::Type, "Pair", Visibility::Private, 15, 15),
        ]
    );
    assert_eq!(symbols[0].signature.as_deref(), Some("export function load(a) {"));
    assert_eq!(symbols[3].signature.as_deref(), Some("export const add = (a, b) => {"));
    assert!(symbols[4].signature.is_none());
}

#[test]
fn php_classes_functions_and_constants() {
    let src = "<?php\nabstract class Base {\n    private const SECRET = 1;\n    const OPEN = 2;\n    protected static function build($a) {\n        return $a;\n    }\n    public function run() {\n    }\n}\nfinal class Impl {\n}\ninterface Runs {\n}\ntrait Logs {\n}\nfunction top() {\n}\n";
    let symbols = PhpParser.parse_symbols(src);
    assert_eq!(
        brief(&symbols),
        vec![
            row(SymbolKind::Class, "Base", Visibility::Public, 2, 10),
            row(SymbolKind::Const, "SECRET", Visibility::Private, 3, 3),
            row(SymbolKind::Const, "OPEN", Visibility::Public, 4, 4),
            row(SymbolKind::Function, "build", Visibility::Public, 5, 7),
            row(SymbolKind::Function, "run", Visibility::Public, 8, 9),
            row(SymbolKind::Class, "Impl", Visibility::Public, 11, 12),
            row(SymbolKind::Interface, "Runs", Visibility::Public, 13, 14),
            row(SymbolKind::Trait, "Logs", Visibility::Public, 15, 16),
            row(SymbolKind::Function, "top", Visibility::Public, 17, 18),
        ]
    );
    assert_eq!(symbols[0].signature.as_deref(), Some("abstract class Base"));
    assert_eq!(symbols[5].signature.as_deref(), Some("final class Impl"));
    assert_eq!(symbols[6].signature.as_deref(), Some("interface Runs"));
    assert_eq!(symbols[4].signature.as_deref(), Some("public function run(...)"));
    assert_eq!(symbols[8].signature.as_deref(), Some("function top(...)"));
}

#[test]
fn ruby_methods_follow_visibility_keywords() {
    // A pattern that allows white space before `def` begins its match on the
    // blank line above the definition.
    let src = "module Shop\n  class Cart < Base\n    attr_reader :items, :total\n\n    def add(item)\n      if item\n        push(item)\n      end\n    end\n\n    def self.build\n    end\n\n    private\n\n    def secret?\n    end\n  end\nend\n";
    let symbols = RubyParser.parse_symbols(src);
    assert_eq!(
        brief(&symbols),
        vec![
            row(SymbolKind::Module, "Shop", Visibility::Public, 1, 19),
            row(SymbolKind::Const, "items", Visibility::Public, 3, 3),
            row(SymbolKind::Const, "total", Visibility::Public, 3, 3),
            row(SymbolKind::Method, "add", Visibility::Public, 4, 9),
            row(SymbolKind::Function, "self.build", Visibility::Public, 10, 12),
            row(SymbolKind::Method, "secret?", Visibility::Private, 15, 17),
        ]
    );
    assert_eq!(symbols[0].signature.as_deref(), Some("module Shop"));
    assert_eq!(symbols[3].signature.as_deref(), Some("def add"));
    assert_eq!(symbols[4].signature.as_deref(), Some("def self.build"));
    assert_ordered(&symbols);
}

#[test]
fn ruby_class_at_line_start() {
    let src = "class Top\n  def go\n  end\nend\n";
    let symbols = RubyParser.parse_symbols(src);
    assert_eq!(
        brief(&symbols),
        vec![
            row(SymbolKind::Class, "Top", Visibility::Public, 1, 4),
            row(SymbolKind::Method, "go", Visibility::Public, 2, 3),
        ]
    );
    assert_eq!(symbols[0].signature.as_deref(), Some("class Top"));
}

#[test]
fn dart_members_and_privacy() {
    let src = "abstract class Shape {\n}\nclass _Hidden extends Shape {\n}\nmixin Walks on Shape {\n}\nextension Fancy on String {\n}\nenum Color {\n  red\n}\nstatic int count(int a) {\n  return a;\n}\nvoid _run() async {\n}\n  int get size {\n    return 1;\n  }\n  set size(int v) {\n  }\n";
    let symbols = DartParser.parse_symbols(src);
    assert_eq!(
        brief(&symbols),
        vec![
            row(SymbolKind::Class, "Shape", Visibility::Public, 1, 2),
            row(SymbolKind::Class, "_Hidden", Visibility::Private, 3, 4),
            row(SymbolKind::Trait, "Walks", Visibility::Public, 5, 6),
            row(SymbolKind::Module, "Fancy", Visibility::Public, 7, 8),
            row(SymbolKind::Enum, "Color", Visibility::Public, 9, 11),
            row(SymbolKind::Function, "count", Visibility::Public, 12, 14),
            row(SymbolKind::Method, "_run", Visibility::Private, 15, 16),
            row(SymbolKind::Method, "get size", Visibility::Public, 17, 19),
            row(SymbolKind::Method, "set size", Visibility::Public, 20, 21),
        ]
    );
    assert_eq!(symbols[0].signature.as_deref(), Some("abstract class Shape"));
    assert_eq!(symbols[1].signature.as_deref(), Some("class _Hidden"));
    assert_eq!(symbols[5].signature.as_deref(), Some("static int count(int a)"));
    assert!(symbols[7].signature.is_none());
}

#[test]
fn java_types_and_methods() {
    let src = "public class Shop {\n    private static final int LIMIT = 3;\n\n    public int total(int a) {\n        if (a > 0) {\n            return a;\n        }\n        return 0;\n    }\n\n    void reset() {\n    }\n}\n\ninterface Runs {\n}\n\nprotected enum Color {\n}\n";
    let symbols = JavaParser.parse_symbols(src);
    assert_eq!(
        brief(&symbols),
        vec![
            row(SymbolKind::Class, "Shop", Visibility::Public, 1, 13),
            row(SymbolKind::Const, "LIMIT", Visibility::Private, 2, 2),
            row(SymbolKind::Method, "total", Visibility::Public, 4, 9),
            row(SymbolKind::Method, "reset", Visibility::Internal, 11, 12),
            row(SymbolKind::Interface, "Runs", Visibility::Internal, 15, 16),
            row(SymbolKind::Enum, "Color", Visibility::Protected, 18, 19),
        ]
    );
    assert_eq!(symbols[2].signature.as_deref(), Some("public int total(int a)"));
}

#[test]
fn csharp_types_and_methods() {
    let src = "namespace Shop.Core\n{\n    public sealed class Cart\n    {\n        public int Total(int a)\n        {\n            return a;\n        }\n\n        void Reset() {\n        }\n    }\n\n    internal struct Point\n    {\n    }\n\n    public interface IRuns\n    {\n    }\n\n    enum Color\n    {\n    }\n}\n";
    let symbols = CSharpParser.parse_symbols(src);
    assert_eq!(
        brief(&symbols),
        vec![
            row(SymbolKind::Module, "Shop.Core", Visibility::Public, 1, 25),
            row(SymbolKind::Class, "Cart", Visibility::Public, 3, 12),
            row(SymbolKind::Method, "Total", Visibility::Public, 5, 8),
            row(SymbolKind::Method, "Reset", Visibility::Private, 10, 11),
            row(SymbolKind::Struct, "Point", Visibility::Internal, 14, 16),
            row(SymbolKind::Interface, "IRuns", Visibility::Public, 18, 20),
            row(SymbolKind::Enum, "Color", Visibility::Internal, 22, 24),
        ]
    );
}

#[test]
fn swift_types_and_functions() {
    let src = "public final class Cart {\n    class func make() -> Cart {\n        return Cart()\n    }\n\n    private func secret() {\n    }\n}\n\nstruct Point {\n}\n\nfileprivate enum Color {\n}\n\npublic protocol Runs {\n}\n\nextension Cart {\n}\n\nfunc top() {\n}\n";
    let symbols = SwiftParser.parse_symbols(src);
    assert_eq!(
        brief(&symbols),
        vec![
            row(SymbolKind::Class, "Cart", Visibility::Public, 1, 8),
            row(SymbolKind::Function, "make", Visibility::Internal, 2, 4),
            row(SymbolKind::Function, "secret", Visibility::Private, 6, 7),
            row(SymbolKind::Struct, "Point", Visibility::Internal, 10, 11),
            row(SymbolKind::Enum, "Color", Visibility::Private, 13, 14),
            row(SymbolKind::Interface, "Runs", Visibility::Public, 16, 17),
            row(SymbolKind::Module, "Cart", Visibility::Internal, 19, 20),
            row(SymbolKind::Function, "top", Visibility::Internal, 22, 23),
        ]
    );
    assert_eq!(symbols[6].signature.as_deref(), Some("extension Cart"));
}

#[test]
fn symbols_are_ordered_and_without_repeats() {
    let src = "fn b() {}\nfn a() {} fn c() {}\nstruct S; struct T;\nfn a() {}\n";
    let symbols = RustParser.parse_symbols(src);
    assert_ordered(&symbols);
    let names: Vec<&str> = symbols.iter().map(|s| s.name.as_str()).collect();
    assert_eq!(names, vec!["b", "a", "S", "a"]);
}
