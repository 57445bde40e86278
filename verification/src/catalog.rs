//! The static application catalog: categories of installable
//! applications, defined once at startup and read-only thereafter, and the
//! selection step that copies a chosen subset out of a category.

use vstd::prelude::*;
use vstd::string::*;
use crate::installer::package_identity;
use crate::selector::parse_selection;
use crate::selector::selection_spec;
use crate::text::has_token;
use crate::text::is_space_char;

verus! {

/// One installable application.  Its identity is its name; the install
/// command must end with the bare package identifier, on which the
/// presence check relies.
#[derive(Debug)]
pub struct App {
    pub name: String,
    pub command: String,
    pub cask: bool,
    pub path: Option<String>,
    pub executable: Option<String>,
}

impl App {
    /// An exact copy, field for field.
    pub fn duplicate(&self) -> (r: App)
        ensures
            r == *self,
    {
        App {
            name: self.name.clone(),
            command: self.command.clone(),
            cask: self.cask,
            path: match &self.path {
                Some(p) => Some(p.clone()),
                None => None,
            },
            executable: match &self.executable {
                Some(e) => Some(e.clone()),
                None => None,
            },
        }
    }
}

/// A named group of applications; the order is the display order.
#[derive(Debug)]
pub struct Category {
    pub name: String,
    pub apps: Vec<App>,
}

/// The fields of one application, at the specification level.
#[verifier::ext_equal]
pub struct AppSpec {
    pub name: Seq<char>,
    pub command: Seq<char>,
    pub cask: bool,
    pub path: Option<Seq<char>>,
    pub executable: Option<Seq<char>>,
}

impl View for App {
    type V = AppSpec;

    open spec fn view(&self) -> AppSpec {
        AppSpec {
            name: self.name@,
            command: self.command@,
            cask: self.cask,
            path: match self.path {
                Some(p) => Some(p@),
                None => None,
            },
            executable: match self.executable {
                Some(e) => Some(e@),
                None => None,
            },
        }
    }
}

/// One category, at the specification level.
#[verifier::ext_equal]
pub struct CategorySpec {
    pub name: Seq<char>,
    pub apps: Seq<AppSpec>,
}

impl View for Category {
    type V = CategorySpec;

    open spec fn view(&self) -> CategorySpec {
        CategorySpec { name: self.name@, apps: self.apps@.map_values(|a: App| a@) }
    }
}

/// A specification-level entry without a PATH export.
pub open spec fn plain_app(name: Seq<char>, command: Seq<char>, cask: bool) -> AppSpec {
    AppSpec { name, command, cask, path: None, executable: None }
}

/// A specification-level entry whose install also exports a PATH entry.
pub open spec fn pathed_app(
    name: Seq<char>,
    command: Seq<char>,
    path: Seq<char>,
    executable: Seq<char>,
) -> AppSpec {
    AppSpec { name, command, cask: false, path: Some(path), executable: Some(executable) }
}

/// The catalog's fixed contents: every category with its name and its
/// applications, in the display order of a run.
pub open spec fn catalog_spec() -> Seq<CategorySpec> {
    seq![
        CategorySpec { name: "Gestores de Paquetes"@, apps: seq![
            plain_app("pnpm"@, "brew install pnpm"@, false),
            plain_app("Bun"@, "brew install oven-sh/bun/bun"@, false),
            plain_app("Yarn"@, "brew install yarn"@, false),
            plain_app("Node"@, "brew install node"@, false),
        ] },
        CategorySpec { name: "Herramientas de Contenedores"@, apps: seq![
            plain_app("Docker"@, "brew install --cask docker"@, true),
            plain_app("kubectl"@, "brew install kubectl"@, false),
            plain_app("Minikube"@, "brew install minikube"@, false),
        ] },
        CategorySpec { name: "IDEs y Editores"@, apps: seq![
            plain_app("Visual Studio Code"@, "brew install --cask visual-studio-code"@, true),
            plain_app("Cursor"@, "brew install --cask cursor"@, true),
            plain_app("IntelliJ IDEA"@, "brew install --cask intellij-idea"@, true),
            plain_app("WebStorm"@, "brew install --cask webstorm"@, true),
        ] },
        CategorySpec { name: "Navegadores"@, apps: seq![
            plain_app("Google Chrome"@, "brew install --cask google-chrome"@, true),
            plain_app("Brave"@, "brew install --cask brave-browser"@, true),
            plain_app("Opera"@, "brew install --cask opera"@, true),
            plain_app("Firefox"@, "brew install --cask firefox"@, true),
        ] },
        CategorySpec { name: "Terminales"@, apps: seq![
            plain_app("iTerm2"@, "brew install --cask iterm2"@, true),
            plain_app("Warp"@, "brew install --cask warp"@, true),
        ] },
        CategorySpec { name: "Lenguajes de Programación"@, apps: seq![
            pathed_app("Python"@, "brew install python"@, "/opt/homebrew/bin"@, "python3"@),
            pathed_app("Java"@, "brew install java"@, "/opt/homebrew/opt/openjdk/bin"@, "java"@),
            pathed_app("Rust"@, "brew install rust"@, "/opt/homebrew/bin"@, "rustc"@),
            pathed_app("C++ (clang)"@, "brew install llvm"@, "/opt/homebrew/opt/llvm/bin"@, "clang++"@),
            pathed_app("C# (Mono)"@, "brew install mono"@, "/opt/homebrew/bin"@, "mono"@),
            pathed_app("Go"@, "brew install go"@, "/opt/homebrew/bin"@, "go"@),
            pathed_app("Ruby"@, "brew install ruby"@, "/opt/homebrew/bin"@, "ruby"@),
            pathed_app("PHP"@, "brew install php"@, "/opt/homebrew/bin"@, "php"@),
            pathed_app("TypeScript"@, "brew install typescript"@, "/opt/homebrew/bin"@, "tsc"@),
        ] },
        CategorySpec { name: "Bases de Datos"@, apps: seq![
            plain_app("PostgreSQL"@, "brew install postgresql"@, false),
            plain_app("MySQL"@, "brew install mysql"@, false),
            plain_app("MongoDB"@, "brew install mongodb-community"@, false),
        ] },
        CategorySpec { name: "Otros"@, apps: seq![
            plain_app("Raycast"@, "brew install raycast"@, false),
            plain_app("Telegram"@, "brew install --cask telegram"@, true),
            plain_app("Slack"@, "brew install --cask slack"@, true),
            plain_app("Tailscale"@, "brew install tailscale"@, false),
            plain_app("fzf"@, "brew install fzf"@, false),
            plain_app("GitHub CLI (gh)"@, "brew install gh"@, false),
            plain_app("Obsidian"@, "brew install --cask obsidian"@, true),
            plain_app("Notion"@, "brew install --cask notion"@, true),
        ] },
    ]
}

/// Every install command of the catalog ends in a package identifier
/// token: the structural constraint the presence check relies on.
pub proof fn lemma_catalog_commands_have_tokens()
    ensures
        forall|i: int, j: int|
            0 <= i < catalog_spec().len() && 0 <= j < catalog_spec()[i].apps.len()
                ==> has_token((#[trigger] catalog_spec()[i].apps[j]).command),
{
    reveal_strlit("brew install pnpm");
    assert(has_token("brew install pnpm"@)) by {
        assert(!is_space_char("brew install pnpm"@[0]));
    }
    reveal_strlit("brew install oven-sh/bun/bun");
    assert(has_token("brew install oven-sh/bun/bun"@)) by {
        assert(!is_space_char("brew install oven-sh/bun/bun"@[0]));
    }
    reveal_strlit("brew install yarn");
    assert(has_token("brew install yarn"@)) by {
        assert(!is_space_char("brew install yarn"@[0]));
    }
    reveal_strlit("brew install node");
    assert(has_token("brew install node"@)) by {
        assert(!is_space_char("brew install node"@[0]));
    }
    reveal_strlit("brew install --cask docker");
    assert(has_token("brew install --cask docker"@)) by {
        assert(!is_space_char("brew install --cask docker"@[0]));
    }
    reveal_strlit("brew install kubectl");
    assert(has_token("brew install kubectl"@)) by {
        assert(!is_space_char("brew install kubectl"@[0]));
    }
    reveal_strlit("brew install minikube");
    assert(has_token("brew install minikube"@)) by {
        assert(!is_space_char("brew install minikube"@[0]));
    }
    reveal_strlit("brew install --cask visual-studio-code");
    assert(has_token("brew install --cask visual-studio-code"@)) by {
        assert(!is_space_char("brew install --cask visual-studio-code"@[0]));
    }
    reveal_strlit("brew install --cask cursor");
    assert(has_token("brew install --cask cursor"@)) by {
        assert(!is_space_char("brew install --cask cursor"@[0]));
    }
    reveal_strlit("brew install --cask intellij-idea");
    assert(has_token("brew install --cask intellij-idea"@)) by {
        assert(!is_space_char("brew install --cask intellij-idea"@[0]));
    }
    reveal_strlit("brew install --cask webstorm");
    assert(has_token("brew install --cask webstorm"@)) by {
        assert(!is_space_char("brew install --cask webstorm"@[0]));
    }
    reveal_strlit("brew install --cask google-chrome");
    assert(has_token("brew install --cask google-chrome"@)) by {
        assert(!is_space_char("brew install --cask google-chrome"@[0]));
    }
    reveal_strlit("brew install --cask brave-browser");
    assert(has_token("brew install --cask brave-browser"@)) by {
        assert(!is_space_char("brew install --cask brave-browser"@[0]));
    }
    reveal_strlit("brew install --cask opera");
    assert(has_token("brew install --cask opera"@)) by {
        assert(!is_space_char("brew install --cask opera"@[0]));
    }
    reveal_strlit("brew install --cask firefox");
    assert(has_token("brew install --cask firefox"@)) by {
        assert(!is_space_char("brew install --cask firefox"@[0]));
    }
    reveal_strlit("brew install --cask iterm2");
    assert(has_token("brew install --cask iterm2"@)) by {
        assert(!is_space_char("brew install --cask iterm2"@[0]));
    }
    reveal_strlit("brew install --cask warp");
    assert(has_token("brew install --cask warp"@)) by {
        assert(!is_space_char("brew install --cask warp"@[0]));
    }
    reveal_strlit("brew install postgresql");
    assert(has_token("brew install postgresql"@)) by {
        assert(!is_space_char("brew install postgresql"@[0]));
    }
    reveal_strlit("brew install mysql");
    assert(has_token("brew install mysql"@)) by {
        assert(!is_space_char("brew install mysql"@[0]));
    }
    reveal_strlit("brew install mongodb-community");
    assert(has_token("brew install mongodb-community"@)) by {
        assert(!is_space_char("brew install mongodb-community"@[0]));
    }
    reveal_strlit("brew install raycast");
    assert(has_token("brew install raycast"@)) by {
        assert(!is_space_char("brew install raycast"@[0]));
    }
    reveal_strlit("brew install --cask telegram");
    assert(has_token("brew install --cask telegram"@)) by {
        assert(!is_space_char("brew install --cask telegram"@[0]));
    }
    reveal_strlit("brew install --cask slack");
    assert(has_token("brew install --cask slack"@)) by {
        assert(!is_space_char("brew install --cask slack"@[0]));
    }
    reveal_strlit("brew install tailscale");
    assert(has_token("brew install tailscale"@)) by {
        assert(!is_space_char("brew install tailscale"@[0]));
    }
    reveal_strlit("brew install fzf");
    assert(has_token("brew install fzf"@)) by {
        assert(!is_space_char("brew install fzf"@[0]));
    }
    reveal_strlit("brew install gh");
    assert(has_token("brew install gh"@)) by {
        assert(!is_space_char("brew install gh"@[0]));
    }
    reveal_strlit("brew install --cask obsidian");
    assert(has_token("brew install --cask obsidian"@)) by {
        assert(!is_space_char("brew install --cask obsidian"@[0]));
    }
    reveal_strlit("brew install --cask notion");
    assert(has_token("brew install --cask notion"@)) by {
        assert(!is_space_char("brew install --cask notion"@[0]));
    }
    reveal_strlit("brew install python");
    assert(has_token("brew install python"@)) by {
        assert(!is_space_char("brew install python"@[0]));
    }
    reveal_strlit("brew install java");
    assert(has_token("brew install java"@)) by {
        assert(!is_space_char("brew install java"@[0]));
    }
    reveal_strlit("brew install rust");
    assert(has_token("brew install rust"@)) by {
        assert(!is_space_char("brew install rust"@[0]));
    }
    reveal_strlit("brew install llvm");
    assert(has_token("brew install llvm"@)) by {
        assert(!is_space_char("brew install llvm"@[0]));
    }
    reveal_strlit("brew install mono");
    assert(has_token("brew install mono"@)) by {
        assert(!is_space_char("brew install mono"@[0]));
    }
    reveal_strlit("brew install go");
    assert(has_token("brew install go"@)) by {
        assert(!is_space_char("brew install go"@[0]));
    }
    reveal_strlit("brew install ruby");
    assert(has_token("brew install ruby"@)) by {
        assert(!is_space_char("brew install ruby"@[0]));
    }
    reveal_strlit("brew install php");
    assert(has_token("brew install php"@)) by {
        assert(!is_space_char("brew install php"@[0]));
    }
    reveal_strlit("brew install typescript");
    assert(has_token("brew install typescript"@)) by {
        assert(!is_space_char("brew install typescript"@[0]));
    }
}

/// An application without a PATH entry of its own.
fn app(name: &str, command: &str, cask: bool) -> (a: App)
    ensures
        a.name@ == name@,
        a.command@ == command@,
        a.cask == cask,
        a.path is None,
        a.executable is None,
{
    App {
        name: name.to_owned(),
        command: command.to_owned(),
        cask,
        path: None,
        executable: None,
    }
}

/// An application whose install also exports a PATH entry, watched
/// through the named executable.
fn app_with_path(name: &str, command: &str, path: &str, executable: &str) -> (a: App)
    ensures
        a.name@ == name@,
        a.command@ == command@,
        a.cask == false,
        a.path matches Some(p) && p@ == path@,
        a.executable matches Some(e) && e@ == executable@,
{
    App {
        name: name.to_owned(),
        command: command.to_owned(),
        cask: false,
        path: Some(path.to_owned()),
        executable: Some(executable.to_owned()),
    }
}

/// The catalog, in the display order of a run: exactly the contents of
/// `catalog_spec`, whose every install command ends in a package
/// identifier token.
pub fn catalog() -> (r: Vec<Category>)
    ensures
        r@.map_values(|c: Category| c@) == catalog_spec(),
        forall|i: int, j: int|
            0 <= i < r@.len() && 0 <= j < r@[i].apps@.len() ==> has_token(
                (#[trigger] r@[i].apps@[j]).command@,
            ),
{
    let mut r: Vec<Category> = Vec::new();

    let mut apps: Vec<App> = Vec::new();
    apps.push(app("pnpm", "brew install pnpm", false));
    apps.push(app("Bun", "brew install oven-sh/bun/bun", false));
    apps.push(app("Yarn", "brew install yarn", false));
    apps.push(app("Node", "brew install node", false));
    r.push(Category { name: "Gestores de Paquetes".to_owned(), apps });

    let mut apps: Vec<App> = Vec::new();
    apps.push(app("Docker", "brew install --cask docker", true));
    apps.push(app("kubectl", "brew install kubectl", false));
    apps.push(app("Minikube", "brew install minikube", false));
    r.push(Category { name: "Herramientas de Contenedores".to_owned(), apps });

    let mut apps: Vec<App> = Vec::new();
    apps.push(app("Visual Studio Code", "brew install --cask visual-studio-code", true));
    apps.push(app("Cursor", "brew install --cask cursor", true));
    apps.push(app("IntelliJ IDEA", "brew install --cask intellij-idea", true));
    apps.push(app("WebStorm", "brew install --cask webstorm", true));
    r.push(Category { name: "IDEs y Editores".to_owned(), apps });

    let mut apps: Vec<App> = Vec::new();
    apps.push(app("Google Chrome", "brew install --cask google-chrome", true));
    apps.push(app("Brave", "brew install --cask brave-browser", true));
    apps.push(app("Opera", "brew install --cask opera", true));
    apps.push(app("Firefox", "brew install --cask firefox", true));
    r.push(Category { name: "Navegadores".to_owned(), apps });

    let mut apps: Vec<App> = Vec::new();
    apps.push(app("iTerm2", "brew install --cask iterm2", true));
    apps.push(app("Warp", "brew install --cask warp", true));
    r.push(Category { name: "Terminales".to_owned(), apps });

    let mut apps: Vec<App> = Vec::new();
    apps.push(app_with_path("Python", "brew install python", "/opt/homebrew/bin", "python3"));
    apps.push(app_with_path("Java", "brew install java", "/opt/homebrew/opt/openjdk/bin", "java"));
    apps.push(app_with_path("Rust", "brew install rust", "/opt/homebrew/bin", "rustc"));
    apps.push(app_with_path("C++ (clang)", "brew install llvm", "/opt/homebrew/opt/llvm/bin", "clang++"));
    apps.push(app_with_path("C# (Mono)", "brew install mono", "/opt/homebrew/bin", "mono"));
    apps.push(app_with_path("Go", "brew install go", "/opt/homebrew/bin", "go"));
    apps.push(app_with_path("Ruby", "brew install ruby", "/opt/homebrew/bin", "ruby"));
    apps.push(app_with_path("PHP", "brew install php", "/opt/homebrew/bin", "php"));
    apps.push(app_with_path("TypeScript", "brew install typescript", "/opt/homebrew/bin", "tsc"));
    r.push(Category { name: "Lenguajes de Programación".to_owned(), apps });

    let mut apps: Vec<App> = Vec::new();
    apps.push(app("PostgreSQL", "brew install postgresql", false));
    apps.push(app("MySQL", "brew install mysql", false));
    apps.push(app("MongoDB", "brew install mongodb-community", false));
    r.push(Category { name: "Bases de Datos".to_owned(), apps });

    let mut apps: Vec<App> = Vec::new();
    apps.push(app("Raycast", "brew install raycast", false));
    apps.push(app("Telegram", "brew install --cask telegram", true));
    apps.push(app("Slack", "brew install --cask slack", true));
    apps.push(app("Tailscale", "brew install tailscale", false));
    apps.push(app("fzf", "brew install fzf", false));
    apps.push(app("GitHub CLI (gh)", "brew install gh", false));
    apps.push(app("Obsidian", "brew install --cask obsidian", true));
    apps.push(app("Notion", "brew install --cask notion", true));
    r.push(Category { name: "Otros".to_owned(), apps });

    proof {
        let cv = r@.map_values(|c: Category| c@);
        assert(cv[0] =~~= catalog_spec()[0]);
        assert(cv[1] =~~= catalog_spec()[1]);
        assert(cv[2] =~~= catalog_spec()[2]);
        assert(cv[3] =~~= catalog_spec()[3]);
        assert(cv[4] =~~= catalog_spec()[4]);
        assert(cv[5] =~~= catalog_spec()[5]);
        assert(cv[6] =~~= catalog_spec()[6]);
        assert(cv[7] =~~= catalog_spec()[7]);
        assert(cv =~~= catalog_spec());
        lemma_catalog_commands_have_tokens();
        assert forall|i: int, j: int|
            0 <= i < r@.len() && 0 <= j < r@[i].apps@.len() implies has_token(
            (#[trigger] r@[i].apps@[j]).command@,
        ) by {
            assert(cv[i] == catalog_spec()[i]);
            assert(r@[i]@.apps == catalog_spec()[i].apps);
            assert(r@[i]@.apps[j] == r@[i].apps@[j]@);
        }
    }
    r
}

/// Whether every install command of the catalog ends in a package
/// identifier token.  The presence check derives the package identity
/// from that last token, so this is the structural constraint every
/// catalog entry must meet.
pub fn commands_have_identities(cats: &Vec<Category>) -> (r: bool)
    ensures
        r == (forall|i: int, j: int|
            0 <= i < cats@.len() && 0 <= j < cats@[i].apps@.len() ==> has_token(
                #[trigger] cats@[i].apps@[j].command@,
            )),
{
    let mut i: usize = 0;
    let iend = cats.len();
    while i < iend
        invariant
            iend == cats@.len(),
            i <= iend,
            forall|i2: int, j2: int|
                0 <= i2 < i && 0 <= j2 < cats@[i2].apps@.len() ==> has_token(
                    #[trigger] cats@[i2].apps@[j2].command@,
                ),
        decreases iend - i,
    {
        let apps = &cats[i].apps;
        let mut j: usize = 0;
        let jend = apps.len();
        while j < jend
            invariant
                iend == cats@.len(),
                i < iend,
                apps@ == cats@[i as int].apps@,
                jend == apps@.len(),
                j <= jend,
                forall|j2: int| 0 <= j2 < j ==> has_token(#[trigger] apps@[j2].command@),
            decreases jend - j,
        {
            match package_identity(apps[j].command.as_str()) {
                Some(_) => {},
                None => {
                    proof {
                        assert(!has_token(cats@[i as int].apps@[j as int].command@));
                    }
                    return false;
                },
            }
            j += 1;
        }
        i += 1;
    }
    true
}

/// The applications a selection expression picks from one category, as
/// copies, in selection order.
pub fn select_from(apps: &Vec<App>, raw: &str) -> (r: Vec<App>)
    ensures
        r@ == selection_spec(raw@, apps@.len() as nat).map_values(|i: int| apps@[i]),
{
    let picks = parse_selection(raw, apps.len());
    let ghost sel = selection_spec(raw@, apps@.len() as nat);
    let mut r: Vec<App> = Vec::new();
    let mut k: usize = 0;
    let end = picks.len();
    proof {
        assert(r@ =~= sel.take(0).map_values(|i: int| apps@[i]));
    }
    while k < end
        invariant
            end == picks@.len(),
            picks@.map_values(|v: usize| v as int) == sel,
            sel == selection_spec(raw@, apps@.len() as nat),
            forall|q: int| 0 <= q < picks@.len() ==> picks@[q] < apps@.len(),
            k <= end,
            r@ == sel.take(k as int).map_values(|i: int| apps@[i]),
        decreases end - k,
    {
        let ix = picks[k];
        proof {
            assert(sel[k as int] == picks@.map_values(|v: usize| v as int)[k as int]);
        }
        r.push(apps[ix].duplicate());
        proof {
            assert(r@ =~= sel.take(k as int + 1).map_values(|i: int| apps@[i]));
        }
        k += 1;
    }
    proof {
        assert(sel.take(end as int) =~= sel);
    }
    r
}

} // verus!
