use vstd::prelude::*;
use crate::text::{same_text, concat, lowercase, to_lowercase, trim, trim_ws, trim_start_matches, trim_end_matches, strip_prefixes, strip_suffixes};

verus! {

/// What the user asks for when creating a project.
pub struct ProjectScaffold {
    pub name: String,
    pub language: String,
    pub description: String,
}

/// A list of files as (path, content).
pub open spec fn files_view(v: Seq<(String, String)>) -> Seq<(Seq<char>, Seq<char>)> {
    v.map_values(|p: (String, String)| (p.0@, p.1@))
}

/// The text that stands for a project's description.
pub open spec fn placeholder_text() -> Seq<char> {
    "Your project description here."@
}

/// The text that stands for a project's description.
pub fn desc_placeholder() -> (r: String)
    ensures
        r@ == placeholder_text(),
{
    String::from_str("Your project description here.")
}

/// The files of a Rust project named `name`, as (path, content).
pub open spec fn rust_files(name: Seq<char>) -> Seq<(Seq<char>, Seq<char>)> {
    seq![
        ("Cargo.toml"@, "[package]\nname = \""@ + name + "\"\nversion = \"0.1.0\"\nedition = \"2021\"\n\n[dependencies]\n"@),
        ("src/main.rs"@, "fn main() {\n    println!(\"Hello, "@ + name + "!\");\n}\n"@),
        (".gitignore"@, "/target\n"@),
        ("README.md"@, "# "@ + name + "\n\n"@ + placeholder_text()),
    ]
}

/// The files of a Rust project named `name`.
pub fn rust_template(name: &str) -> (r: Vec<(String, String)>)
    ensures
        files_view(r@) == rust_files(name@),
{
    let mut files: Vec<(String, String)> = Vec::new();
    {
        let mut content = String::from_str("[package]\nname = \"");
        content = concat(content.as_str(), name);
        content = concat(content.as_str(), "\"\nversion = \"0.1.0\"\nedition = \"2021\"\n\n[dependencies]\n");
        files.push((String::from_str("Cargo.toml"), content));
    }
    {
        let mut content = String::from_str("fn main() {\n    println!(\"Hello, ");
        content = concat(content.as_str(), name);
        content = concat(content.as_str(), "!\");\n}\n");
        files.push((String::from_str("src/main.rs"), content));
    }
    {
        let content = String::from_str("/target\n");
        files.push((String::from_str(".gitignore"), content));
    }
    {
        let mut content = String::from_str("# ");
        content = concat(content.as_str(), name);
        content = concat(content.as_str(), "\n\n");
        content = concat(content.as_str(), desc_placeholder().as_str());
        files.push((String::from_str("README.md"), content));
    }
    assert(files_view(files@) =~= rust_files(name@));
    files
}

/// The files of a Python project named `name`, as (path, content).
pub open spec fn python_files(name: Seq<char>) -> Seq<(Seq<char>, Seq<char>)> {
    seq![
        ("README.md"@, "# "@ + name + "\n\n"@ + placeholder_text()),
        ("requirements.txt"@, "# Add dependencies here\n"@),
        ("src/__init__.py"@, ""@),
        ("src/main.py"@, "def main():\n    print(\"Hello from "@ + name + "!\")\n\n\nif __name__ == \"__main__\":\n    main()\n"@),
        (".gitignore"@, "__pycache__/\n*.pyc\n.venv/\n"@),
    ]
}

/// The files of a Python project named `name`.
pub fn python_template(name: &str) -> (r: Vec<(String, String)>)
    ensures
        files_view(r@) == python_files(name@),
{
    let mut files: Vec<(String, String)> = Vec::new();
    {
        let mut content = String::from_str("# ");
        content = concat(content.as_str(), name);
        content = concat(content.as_str(), "\n\n");
        content = concat(content.as_str(), desc_placeholder().as_str());
        files.push((String::from_str("README.md"), content));
    }
    {
        let content = String::from_str("# Add dependencies here\n");
        files.push((String::from_str("requirements.txt"), content));
    }
    {
        let content = String::from_str("");
        files.push((String::from_str("src/__init__.py"), content));
    }
    {
        let mut content = String::from_str("def main():\n    print(\"Hello from ");
        content = concat(content.as_str(), name);
        content = concat(content.as_str(), "!\")\n\n\nif __name__ == \"__main__\":\n    main()\n");
        files.push((String::from_str("src/main.py"), content));
    }
    {
        let content = String::from_str("__pycache__/\n*.pyc\n.venv/\n");
        files.push((String::from_str(".gitignore"), content));
    }
    assert(files_view(files@) =~= python_files(name@));
    files
}

/// The files of a JavaScript project named `name`, as (path, content).
pub open spec fn js_files(name: Seq<char>) -> Seq<(Seq<char>, Seq<char>)> {
    seq![
        ("package.json"@, "{\n  \"name\": \""@ + name + "\",\n  \"version\": \"1.0.0\",\n  \"main\": \"src/index.js\",\n  \"scripts\": {\n    \"start\": \"node src/index.js\"\n  }\n}\n"@),
        ("src/index.js"@, "console.log(\"Hello from "@ + name + "!\");\n"@),
        ("README.md"@, "# "@ + name + "\n\n"@ + placeholder_text()),
        (".gitignore"@, "node_modules/\n"@),
    ]
}

/// The files of a JavaScript project named `name`.
pub fn js_template(name: &str) -> (r: Vec<(String, String)>)
    ensures
        files_view(r@) == js_files(name@),
{
    let mut files: Vec<(String, String)> = Vec::new();
    {
        let mut content = String::from_str("{\n  \"name\": \"");
        content = concat(content.as_str(), name);
        content = concat(content.as_str(), "\",\n  \"version\": \"1.0.0\",\n  \"main\": \"src/index.js\",\n  \"scripts\": {\n    \"start\": \"node src/index.js\"\n  }\n}\n");
        files.push((String::from_str("package.json"), content));
    }
    {
        let mut content = String::from_str("console.log(\"Hello from ");
        content = concat(content.as_str(), name);
        content = concat(content.as_str(), "!\");\n");
        files.push((String::from_str("src/index.js"), content));
    }
    {
        let mut content = String::from_str("# ");
        content = concat(content.as_str(), name);
        content = concat(content.as_str(), "\n\n");
        content = concat(content.as_str(), desc_placeholder().as_str());
        files.push((String::from_str("README.md"), content));
    }
    {
        let content = String::from_str("node_modules/\n");
        files.push((String::from_str(".gitignore"), content));
    }
    assert(files_view(files@) =~= js_files(name@));
    files
}

/// The files of a TypeScript project named `name`, as (path, content).
pub open spec fn ts_files(name: Seq<char>) -> Seq<(Seq<char>, Seq<char>)> {
    seq![
        ("package.json"@, "{\n  \"name\": \""@ + name + "\",\n  \"version\": \"1.0.0\",\n  \"main\": \"dist/index.js\",\n  \"scripts\": {\n    \"build\": \"tsc\",\n    \"start\": \"node dist/index.js\"\n  }\n}\n"@),
        ("tsconfig.json"@, "{\n  \"compilerOptions\": {\n    \"target\": \"ES2020\",\n    \"module\": \"commonjs\",\n    \"outDir\": \"./dist\",\n    \"strict\": true\n  },\n  \"include\": [\"src\"]\n}\n"@),
        ("src/index.ts"@, "console.log(\"Hello from "@ + name + "!\");\n"@),
        ("README.md"@, "# "@ + name + "\n\n"@ + placeholder_text()),
        (".gitignore"@, "node_modules/\ndist/\n"@),
    ]
}

/// The files of a TypeScript project named `name`.
pub fn ts_template(name: &str) -> (r: Vec<(String, String)>)
    ensures
        files_view(r@) == ts_files(name@),
{
    let mut files: Vec<(String, String)> = Vec::new();
    {
        let mut content = String::from_str("{\n  \"name\": \"");
        content = concat(content.as_str(), name);
        content = concat(content.as_str(), "\",\n  \"version\": \"1.0.0\",\n  \"main\": \"dist/index.js\",\n  \"scripts\": {\n    \"build\": \"tsc\",\n    \"start\": \"node dist/index.js\"\n  }\n}\n");
        files.push((String::from_str("package.json"), content));
    }
    {
        let content = String::from_str("{\n  \"compilerOptions\": {\n    \"target\": \"ES2020\",\n    \"module\": \"commonjs\",\n    \"outDir\": \"./dist\",\n    \"strict\": true\n  },\n  \"include\": [\"src\"]\n}\n");
        files.push((String::from_str("tsconfig.json"), content));
    }
    {
        let mut content = String::from_str("console.log(\"Hello from ");
        content = concat(content.as_str(), name);
        content = concat(content.as_str(), "!\");\n");
        files.push((String::from_str("src/index.ts"), content));
    }
    {
        let mut content = String::from_str("# ");
        content = concat(content.as_str(), name);
        content = concat(content.as_str(), "\n\n");
        content = concat(content.as_str(), desc_placeholder().as_str());
        files.push((String::from_str("README.md"), content));
    }
    {
        let content = String::from_str("node_modules/\ndist/\n");
        files.push((String::from_str(".gitignore"), content));
    }
    assert(files_view(files@) =~= ts_files(name@));
    files
}

/// The files of a Go module named `name`, as (path, content).
pub open spec fn go_files(name: Seq<char>) -> Seq<(Seq<char>, Seq<char>)> {
    seq![
        ("go.mod"@, "module "@ + name + "\n\ngo 1.21\n"@),
        ("main.go"@, "package main\n\nimport \"fmt\"\n\nfunc main() {\n    fmt.Println(\"Hello from "@ + name + "!\")\n}\n"@),
        ("README.md"@, "# "@ + name + "\n\n"@ + placeholder_text()),
    ]
}

/// The files of a Go module named `name`.
pub fn go_template(name: &str) -> (r: Vec<(String, String)>)
    ensures
        files_view(r@) == go_files(name@),
{
    let mut files: Vec<(String, String)> = Vec::new();
    {
        let mut content = String::from_str("module ");
        content = concat(content.as_str(), name);
        content = concat(content.as_str(), "\n\ngo 1.21\n");
        files.push((String::from_str("go.mod"), content));
    }
    {
        let mut content = String::from_str("package main\n\nimport \"fmt\"\n\nfunc main() {\n    fmt.Println(\"Hello from ");
        content = concat(content.as_str(), name);
        content = concat(content.as_str(), "!\")\n}\n");
        files.push((String::from_str("main.go"), content));
    }
    {
        let mut content = String::from_str("# ");
        content = concat(content.as_str(), name);
        content = concat(content.as_str(), "\n\n");
        content = concat(content.as_str(), desc_placeholder().as_str());
        files.push((String::from_str("README.md"), content));
    }
    assert(files_view(files@) =~= go_files(name@));
    files
}

/// The files of a C program named `name`, as (path, content).
pub open spec fn c_files(name: Seq<char>) -> Seq<(Seq<char>, Seq<char>)> {
    seq![
        ("Makefile"@, "CC = gcc\nCFLAGS = -Wall -Wextra -O2\n\nall: main\n\nmain: main.c\n\t$(CC) $(CFLAGS) -o main main.c\n\nclean:\n\trm -f main\n"@),
        ("main.c"@, "#include <stdio.h>\n\nint main() {\n    printf(\"Hello from "@ + name + "!\\\\n\");\n    return 0;\n}\n"@),
        ("README.md"@, "# "@ + name + "\n\n"@ + placeholder_text()),
    ]
}

/// The files of a C program named `name`.
pub fn c_template(name: &str) -> (r: Vec<(String, String)>)
    ensures
        files_view(r@) == c_files(name@),
{
    let mut files: Vec<(String, String)> = Vec::new();
    {
        let content = String::from_str("CC = gcc\nCFLAGS = -Wall -Wextra -O2\n\nall: main\n\nmain: main.c\n\t$(CC) $(CFLAGS) -o main main.c\n\nclean:\n\trm -f main\n");
        files.push((String::from_str("Makefile"), content));
    }
    {
        let mut content = String::from_str("#include <stdio.h>\n\nint main() {\n    printf(\"Hello from ");
        content = concat(content.as_str(), name);
        content = concat(content.as_str(), "!\\\\n\");\n    return 0;\n}\n");
        files.push((String::from_str("main.c"), content));
    }
    {
        let mut content = String::from_str("# ");
        content = concat(content.as_str(), name);
        content = concat(content.as_str(), "\n\n");
        content = concat(content.as_str(), desc_placeholder().as_str());
        files.push((String::from_str("README.md"), content));
    }
    assert(files_view(files@) =~= c_files(name@));
    files
}

/// The files of a C++ program named `name`, as (path, content).
pub open spec fn cpp_files(name: Seq<char>) -> Seq<(Seq<char>, Seq<char>)> {
    seq![
        ("Makefile"@, "CXX = g++\nCXXFLAGS = -Wall -Wextra -O2 -std=c++17\n\nall: main\n\nmain: main.cpp\n\t$(CXX) $(CXXFLAGS) -o main main.cpp\n\nclean:\n\trm -f main\n"@),
        ("main.cpp"@, "#include <iostream>\n\nint main() {\n    std::cout << \"Hello from "@ + name + "!\" << std::endl;\n    return 0;\n}\n"@),
        ("README.md"@, "# "@ + name + "\n\n"@ + placeholder_text()),
    ]
}

/// The files of a C++ program named `name`.
pub fn cpp_template(name: &str) -> (r: Vec<(String, String)>)
    ensures
        files_view(r@) == cpp_files(name@),
{
    let mut files: Vec<(String, String)> = Vec::new();
    {
        let content = String::from_str("CXX = g++\nCXXFLAGS = -Wall -Wextra -O2 -std=c++17\n\nall: main\n\nmain: main.cpp\n\t$(CXX) $(CXXFLAGS) -o main main.cpp\n\nclean:\n\trm -f main\n");
        files.push((String::from_str("Makefile"), content));
    }
    {
        let mut content = String::from_str("#include <iostream>\n\nint main() {\n    std::cout << \"Hello from ");
        content = concat(content.as_str(), name);
        content = concat(content.as_str(), "!\" << std::endl;\n    return 0;\n}\n");
        files.push((String::from_str("main.cpp"), content));
    }
    {
        let mut content = String::from_str("# ");
        content = concat(content.as_str(), name);
        content = concat(content.as_str(), "\n\n");
        content = concat(content.as_str(), desc_placeholder().as_str());
        files.push((String::from_str("README.md"), content));
    }
    assert(files_view(files@) =~= cpp_files(name@));
    files
}

/// The files of a web page named `name`, as (path, content).
pub open spec fn html_files(name: Seq<char>) -> Seq<(Seq<char>, Seq<char>)> {
    seq![
        ("index.html"@, "<!DOCTYPE html>\n<html lang=\"en\">\n<head>\n    <meta charset=\"UTF-8\">\n    <meta name=\"viewport\" content=\"width=device-width, initial-scale=1.0\">\n    <title>"@ + name + "</title>\n    <link rel=\"stylesheet\" href=\"style.css\">\n</head>\n<body>\n    <h1>Hello from "@ + name + "!</h1>\n    <script src=\"script.js\"></script>\n</body>\n</html>\n"@),
        ("style.css"@, "body {\n    font-family: sans-serif;\n    margin: 2rem;\n}\n"@),
        ("script.js"@, "console.log(\"Hello from "@ + name + "!\");\n"@),
        ("README.md"@, "# "@ + name + "\n\n"@ + placeholder_text()),
    ]
}

/// The files of a web page named `name`.
pub fn html_template(name: &str) -> (r: Vec<(String, String)>)
    ensures
        files_view(r@) == html_files(name@),
{
    let mut files: Vec<(String, String)> = Vec::new();
    {
        let mut content = String::from_str("<!DOCTYPE html>\n<html lang=\"en\">\n<head>\n    <meta charset=\"UTF-8\">\n    <meta name=\"viewport\" content=\"width=device-width, initial-scale=1.0\">\n    <title>");
        content = concat(content.as_str(), name);
        content = concat(content.as_str(), "</title>\n    <link rel=\"stylesheet\" href=\"style.css\">\n</head>\n<body>\n    <h1>Hello from ");
        content = concat(content.as_str(), name);
        content = concat(content.as_str(), "!</h1>\n    <script src=\"script.js\"></script>\n</body>\n</html>\n");
        files.push((String::from_str("index.html"), content));
    }
    {
        let content = String::from_str("body {\n    font-family: sans-serif;\n    margin: 2rem;\n}\n");
        files.push((String::from_str("style.css"), content));
    }
    {
        let mut content = String::from_str("console.log(\"Hello from ");
        content = concat(content.as_str(), name);
        content = concat(content.as_str(), "!\");\n");
        files.push((String::from_str("script.js"), content));
    }
    {
        let mut content = String::from_str("# ");
        content = concat(content.as_str(), name);
        content = concat(content.as_str(), "\n\n");
        content = concat(content.as_str(), desc_placeholder().as_str());
        files.push((String::from_str("README.md"), content));
    }
    assert(files_view(files@) =~= html_files(name@));
    files
}

/// The files of a project in another language named `name`, as (path, content).
pub open spec fn generic_files(name: Seq<char>, lang: Seq<char>) -> Seq<(Seq<char>, Seq<char>)> {
    seq![
        ("README.md"@, "# "@ + name + "\n\nLanguage: "@ + lang + "\n\n"@ + placeholder_text() + "\n"@),
        ("src/main.txt"@, "// "@ + name + " project\n"@),
    ]
}

/// The files of a project in another language named `name`.
pub fn generic_template(name: &str, lang: &str) -> (r: Vec<(String, String)>)
    ensures
        files_view(r@) == generic_files(name@, lang@),
{
    let mut files: Vec<(String, String)> = Vec::new();
    {
        let mut content = String::from_str("# ");
        content = concat(content.as_str(), name);
        content = concat(content.as_str(), "\n\nLanguage: ");
        content = concat(content.as_str(), lang);
        content = concat(content.as_str(), "\n\n");
        content = concat(content.as_str(), desc_placeholder().as_str());
        content = concat(content.as_str(), "\n");
        files.push((String::from_str("README.md"), content));
    }
    {
        let mut content = String::from_str("// ");
        content = concat(content.as_str(), name);
        content = concat(content.as_str(), " project\n");
        files.push((String::from_str("src/main.txt"), content));
    }
    assert(files_view(files@) =~= generic_files(name@, lang@));
    files
}

/// The request sent to the local model for an unknown language: the
/// project's name, language and description, and the answer format.
pub open spec fn prompt_text(name: Seq<char>, lang: Seq<char>, desc: Seq<char>) -> Seq<char> {
    "Create a project called \""@ + name + "\" using "@ + lang + " language.\nDescription: "@ + desc + "\n\nReturn ONLY a JSON object where keys are file paths and values are file contents.\nExample: {\"src/main.py\": \"print('hello')\", \"README.md\": \"# Project\"}\nNo explanation, no markdown, just raw JSON."@
}

/// The request sent to the local model for `scaffold`.
pub fn ollama_prompt(scaffold: &ProjectScaffold) -> (r: String)
    ensures
        r@ == prompt_text(scaffold.name@, scaffold.language@, scaffold.description@),
{
    let mut content = String::from_str("Create a project called \"");
    content = concat(content.as_str(), scaffold.name.as_str());
    content = concat(content.as_str(), "\" using ");
    content = concat(content.as_str(), scaffold.language.as_str());
    content = concat(content.as_str(), " language.\nDescription: ");
    content = concat(content.as_str(), scaffold.description.as_str());
    content = concat(content.as_str(), "\n\nReturn ONLY a JSON object where keys are file paths and values are file contents.\nExample: {\"src/main.py\": \"print('hello')\", \"README.md\": \"# Project\"}\nNo explanation, no markdown, just raw JSON.");
    content
}

/// The starter files for a language that has a template (its lowercased
/// name or short name), or `None`.
pub open spec fn template_for(name: Seq<char>, lang: Seq<char>) -> Option<
    Seq<(Seq<char>, Seq<char>)>,
> {
    if lang == "rust"@ || lang == "rs"@ {
        Some(rust_files(name))
    } else if lang == "python"@ || lang == "py"@ {
        Some(python_files(name))
    } else if lang == "javascript"@ || lang == "js"@ {
        Some(js_files(name))
    } else if lang == "typescript"@ || lang == "ts"@ {
        Some(ts_files(name))
    } else if lang == "go"@ {
        Some(go_files(name))
    } else if lang == "c"@ {
        Some(c_files(name))
    } else if lang == "cpp"@ || lang == "c++"@ || lang == "cxx"@ {
        Some(cpp_files(name))
    } else if lang == "html"@ {
        Some(html_files(name))
    } else {
        None
    }
}

/// The starter files for `scaffold`'s language, chosen by its lowercased
/// name; `None` for a language without a template.
pub fn template_files(scaffold: &ProjectScaffold) -> (r: Option<Vec<(String, String)>>)
    ensures
        match r {
            Some(v) => template_for(scaffold.name@, lowercase(scaffold.language@)) == Some(
                files_view(v@),
            ),
            None => template_for(scaffold.name@, lowercase(scaffold.language@)) is None,
        },
{
    let lang = to_lowercase(scaffold.language.as_str());
    let l = lang.as_str();
    let name = scaffold.name.as_str();
    if crate::text::same_text(l, "rust") || crate::text::same_text(l, "rs") {
        Some(rust_template(name))
    } else if crate::text::same_text(l, "python") || crate::text::same_text(l, "py") {
        Some(python_template(name))
    } else if crate::text::same_text(l, "javascript") || crate::text::same_text(l, "js") {
        Some(js_template(name))
    } else if crate::text::same_text(l, "typescript") || crate::text::same_text(l, "ts") {
        Some(ts_template(name))
    } else if crate::text::same_text(l, "go") {
        Some(go_template(name))
    } else if crate::text::same_text(l, "c") {
        Some(c_template(name))
    } else if crate::text::same_text(l, "cpp") || crate::text::same_text(l, "c++") || crate::text::same_text(l, "cxx") {
        Some(cpp_template(name))
    } else if crate::text::same_text(l, "html") {
        Some(html_template(name))
    } else {
        None
    }
}

/// The files of a project whose language has no template: those that the
/// model generated, or else the generic starter files.
pub fn generated_or_generic(
    scaffold: &ProjectScaffold,
    generated: Result<Vec<(String, String)>, String>,
) -> (r: Vec<(String, String)>)
    ensures
        files_view(r@) == (match generated {
            Ok(v) => files_view(v@),
            Err(_) => generic_files(scaffold.name@, scaffold.language@),
        }),
{
    match generated {
        Ok(v) => v,
        Err(_) => generic_template(scaffold.name.as_str(), scaffold.language.as_str()),
    }
}

/// The error given when the project's directory already exists.
pub fn exists_message(name: &str) -> (r: String)
    ensures
        r@ == "Directory '"@ + name@ + "' already exists"@,
{
    let a = concat("Directory '", name);
    concat(a.as_str(), "' already exists")
}

/// What a JSON text holds, as far as the project generator reads it.
pub enum JsonFiles {
    /// Not valid JSON: the parser's message.
    Invalid(String),
    /// Valid JSON, but not an object.
    NotObject,
    /// An object: each key, with its value where that value is a string.
    Object(Vec<(String, Option<String>)>),
}

/// The abstract form of `JsonFiles`.
pub enum JsonFilesModel {
    Invalid(Seq<char>),
    NotObject,
    Object(Seq<(Seq<char>, Option<Seq<char>>)>),
}

impl View for JsonFiles {
    type V = JsonFilesModel;

    open spec fn view(&self) -> JsonFilesModel {
        match self {
            JsonFiles::Invalid(e) => JsonFilesModel::Invalid(e@),
            JsonFiles::NotObject => JsonFilesModel::NotObject,
            JsonFiles::Object(v) => JsonFilesModel::Object(v.deep_view()),
        }
    }
}

/// What `serde_json` reads from `text` (see `parse_json_files`).
pub uninterp spec fn parsed_json(text: Seq<char>) -> JsonFilesModel;

/// Parses `text` with `serde_json::from_str` into a `serde_json::Value` and
/// reads it: the error's message, or whether it is an object (whose entries
/// come in the map's key order), with each value's string if it is one. The
/// result is what `parsed_json` names for `text`.
#[verifier::external_body]
fn parse_json_files(text: &str) -> (r: JsonFiles)
    ensures
        r@ == parsed_json(text@),
{
    match serde_json::from_str::<serde_json::Value>(text) {
        Err(e) => JsonFiles::Invalid(e.to_string()),
        Ok(v) => match v.as_object() {
            None => JsonFiles::NotObject,
            Some(obj) => JsonFiles::Object(
                obj.iter().map(|(k, c)| (k.clone(), c.as_str().map(|x| x.to_string()))).collect(),
            ),
        },
    }
}

/// An entry as (path, content): a missing content is empty.
pub open spec fn with_content(p: (Seq<char>, Option<Seq<char>>)) -> (Seq<char>, Seq<char>) {
    (
        p.0,
        match p.1 {
            Some(c) => c,
            None => ""@,
        },
    )
}

/// The files named by a parsed answer of the model: a string value is the
/// file's content, any other value gives an empty file. `raw` is the answer
/// as received, quoted when it does not parse.
pub open spec fn json_outcome(parsed: JsonFilesModel, raw: Seq<char>) -> Result<
    Seq<(Seq<char>, Seq<char>)>,
    Seq<char>,
> {
    match parsed {
        JsonFilesModel::Invalid(e) => Err("Cannot parse generated JSON: "@ + e + "\nRaw: "@ + raw),
        JsonFilesModel::NotObject => Err("Response is not a JSON object"@),
        JsonFilesModel::Object(entries) => if entries.len() == 0 {
            Err("No files generated"@)
        } else {
            Ok(
                entries.map_values(
                    |p: (Seq<char>, Option<Seq<char>>)| with_content(p),
                ),
            )
        },
    }
}

/// A list of files, or an error message, as plain values.
pub open spec fn files_result_view(r: Result<Vec<(String, String)>, String>) -> Result<
    Seq<(Seq<char>, Seq<char>)>,
    Seq<char>,
> {
    match r {
        Ok(v) => Ok(files_view(v@)),
        Err(e) => Err(e@),
    }
}

/// The files named by a parsed answer of the model (see `json_outcome`).
pub fn files_from_json(parsed: JsonFiles, raw: &str) -> (r: Result<Vec<(String, String)>, String>)
    ensures
        files_result_view(r) == json_outcome(parsed@, raw@),
{
    match parsed {
        JsonFiles::Invalid(e) => {
            let a = concat("Cannot parse generated JSON: ", e.as_str());
            let b = concat(a.as_str(), "\nRaw: ");
            Err(concat(b.as_str(), raw))
        },
        JsonFiles::NotObject => Err(String::from_str("Response is not a JSON object")),
        JsonFiles::Object(entries) => {
            let ghost model = entries.deep_view();
            let n = entries.len();
            let mut out: Vec<(String, String)> = Vec::new();
            let mut i: usize = 0;
            while i < n
                invariant
                    n == entries@.len(),
                    model == entries.deep_view(),
                    i <= n,
                    files_view(out@) == model.take(i as int).map_values(
                        |p: (Seq<char>, Option<Seq<char>>)| with_content(p),
                    ),
                decreases n - i,
            {
                let (k, c) = &entries[i];
                let content = match c {
                    Some(x) => x.clone(),
                    None => String::from_str(""),
                };
                assert(model[i as int] == (k@, c.deep_view()));
                assert((k@, content@) == with_content(model[i as int]));
                let ghost prev = out@;
                out.push((k.clone(), content));
                assert(files_view(out@) =~= files_view(prev).push(with_content(model[i as int])));
                assert(model.take(i + 1) =~= model.take(i as int).push(model[i as int]));
                assert(files_view(out@) =~= model.take(i + 1).map_values(
                    |p: (Seq<char>, Option<Seq<char>>)| with_content(p),
                ));
                i = i + 1;
            }
            if n == 0 {
                Err(String::from_str("No files generated"))
            } else {
                assert(model.take(n as int) =~= model);
                Ok(out)
            }
        },
    }
}

/// The model's answer without code fences ("```json" and "```" in front,
/// "```" behind) and surrounding white space.
pub open spec fn unfenced(text: Seq<char>) -> Seq<char> {
    trim_ws(strip_suffixes(strip_prefixes(strip_prefixes(text, "```json"@), "```"@), "```"@))
}

/// The files that the model's answer `text` describes: the answer is
/// unfenced, parsed as JSON, and read as a map from paths to contents.
pub fn files_from_response(text: &str) -> (r: Result<Vec<(String, String)>, String>)
    ensures
        files_result_view(r) == json_outcome(parsed_json(unfenced(text@)), text@),
{
    let a = trim_start_matches(text, "```json");
    let b = trim_start_matches(a.as_str(), "```");
    let c = trim_end_matches(b.as_str(), "```");
    let cleaned = trim(c.as_str());
    files_from_json(parse_json_files(cleaned.as_str()), text)
}

/// The value stored under `key` among `entries`: the first entry with that
/// key, as its string (`None` when the value is no string).
pub open spec fn value_for(entries: Seq<(Seq<char>, Option<Seq<char>>)>, key: Seq<char>) -> Option<
    Option<Seq<char>>,
>
    decreases entries.len(),
{
    if entries.len() == 0 {
        None
    } else if entries[0].0 == key {
        Some(entries[0].1)
    } else {
        value_for(entries.drop_first(), key)
    }
}

/// The text of the model's reply body, read as JSON: the string under
/// "response", or why there is none.
pub open spec fn reply_answer(parsed: JsonFilesModel) -> Result<Seq<char>, Seq<char>> {
    match parsed {
        JsonFilesModel::Invalid(e) => Err("Invalid JSON response: "@ + e),
        JsonFilesModel::NotObject => Err("No 'response' field in Ollama output"@),
        JsonFilesModel::Object(entries) => match value_for(entries, "response"@) {
            Some(Some(t)) => Ok(t),
            _ => Err("No 'response' field in Ollama output"@),
        },
    }
}

/// A text or an error message, as plain values.
pub open spec fn text_result_view(r: Result<String, String>) -> Result<Seq<char>, Seq<char>> {
    match r {
        Ok(t) => Ok(t@),
        Err(e) => Err(e@),
    }
}

/// The answer text in a parsed reply body of the model (see
/// `reply_answer`).
pub fn answer_from_json(parsed: JsonFiles) -> (r: Result<String, String>)
    ensures
        text_result_view(r) == reply_answer(parsed@),
{
    match parsed {
        JsonFiles::Invalid(e) => Err(concat("Invalid JSON response: ", e.as_str())),
        JsonFiles::NotObject => Err(String::from_str("No 'response' field in Ollama output")),
        JsonFiles::Object(entries) => {
            let ghost model = entries.deep_view();
            let key = "response";
            let n = entries.len();
            assert(value_for(model, key@) == value_for(model.skip(0), key@)) by {
                assert(model.skip(0) =~= model);
            }
            let mut i: usize = 0;
            while i < n
                invariant
                    n == entries@.len(),
                    model == entries.deep_view(),
                    key@ == "response"@,
                    parsed@ == JsonFilesModel::Object(model),
                    i <= n,
                    value_for(model, key@) == value_for(model.skip(i as int), key@),
                decreases n - i,
            {
                let (k, c) = &entries[i];
                assert(model[i as int] == (k@, c.deep_view()));
                assert(model.skip(i as int)[0] == model[i as int]);
                assert(model.skip(i as int).drop_first() =~= model.skip(i + 1));
                if same_text(k.as_str(), key) {
                    assert(value_for(model, key@) == Some(c.deep_view()));
                    return match c {
                        Some(t) => {
                            assert(c.deep_view() == Some(t@));
                            Ok(t.clone())
                        },
                        None => Err(String::from_str("No 'response' field in Ollama output")),
                    };
                }
                i = i + 1;
            }
            assert(model.skip(n as int).len() == 0);
            Err(String::from_str("No 'response' field in Ollama output"))
        },
    }
}

/// The answer text in the model's reply body: the body is parsed as JSON
/// and its "response" string taken (see `reply_answer`).
pub fn answer_from_reply(body: &str) -> (r: Result<String, String>)
    ensures
        text_result_view(r) == reply_answer(parsed_json(body@)),
{
    answer_from_json(parse_json_files(body))
}

} // verus!
