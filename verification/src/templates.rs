//! The project templates a new project can start from.
//!
//! Each template's metadata and shared `.gitignore` are held here; the template's
//! source, configuration and README files are shipped beside the program.

use vstd::prelude::*;
use crate::chars::{is_whitespace, space_prop, to_uppercase_string, upper_full};
use crate::gen_spec::join;
use crate::rust_gen::{chars_match_at, join_strings, strs_v};
use crate::text::{chars_of, push_char, push_str, str_eq};

verus! {

/// How much a template asks of its reader.
#[derive(Debug, Clone, Copy, PartialEq, Eq, Structural)]
pub enum Difficulty {
    Beginner,
    Intermediate,
    Advanced,
}

/// The name a difficulty is shown with.
pub open spec fn difficulty_name(d: Difficulty) -> Seq<char> {
    match d {
        Difficulty::Beginner => "Beginner"@,
        Difficulty::Intermediate => "Intermediate"@,
        Difficulty::Advanced => "Advanced"@,
    }
}

impl Difficulty {
    /// The name the difficulty is shown with.
    pub fn name(&self) -> (s: String)
        ensures
            s@ == difficulty_name(*self),
    {
        match self {
            Difficulty::Beginner => "Beginner".to_owned(),
            Difficulty::Intermediate => "Intermediate".to_owned(),
            Difficulty::Advanced => "Advanced".to_owned(),
        }
    }
}

/// What a template is.
#[derive(Debug)]
pub struct TemplateMetadata {
    pub id: String,
    pub name: String,
    pub description: String,
    pub difficulty: Difficulty,
    /// The language features the template shows.
    pub features: Vec<String>,
}

/// A template: its metadata and the `.gitignore` of the project it makes.
#[derive(Debug)]
pub struct Template {
    pub metadata: TemplateMetadata,
    pub gitignore: String,
}

/// The number of templates.
pub open spec fn template_count() -> int {
    6
}

/// Template `i`: its id, name, description, difficulty and features.
pub open spec fn template_row(i: int) -> (Seq<char>, Seq<char>, Seq<char>, Difficulty, Seq<Seq<char>>) {
    if i == 0 {
        ("simple"@, "Simple"@, "Minimal contract for learning"@, Difficulty::Beginner, seq!["state variables"@, "constructor"@, "view functions"@])
    } else if i == 1 {
        ("counter"@, "Counter"@, "Counter with ownership and access control"@, Difficulty::Beginner, seq!["events"@, "errors"@, "modifiers"@, "access control"@])
    } else if i == 2 {
        ("token"@, "Token"@, "ERC20-style fungible token"@, Difficulty::Intermediate, seq!["mappings"@, "transfers"@, "approvals"@, "pausable"@, "mintable"@])
    } else if i == 3 {
        ("voting"@, "Voting"@, "Decentralized voting system"@, Difficulty::Intermediate, seq!["structs"@, "enums"@, "time-based logic"@, "weighted votes"@])
    } else if i == 4 {
        ("escrow"@, "Escrow"@, "Trustless escrow with dispute resolution"@, Difficulty::Advanced, seq!["state machine"@, "multi-party"@, "deadlines"@, "dispute resolution"@])
    } else if i == 5 {
        ("nft"@, "NFT"@, "ERC721-style NFT collection"@, Difficulty::Advanced, seq!["metadata"@, "minting"@, "approvals"@, "operator pattern"@])
    } else {
        (seq![], seq![], seq![], Difficulty::Beginner, seq![])
    }
}

/// The `.gitignore` every template's project gets.
pub open spec fn gitignore_text() -> Seq<char> {
    "# Build outputs\n/output/\n/target/\n\n# IDE\n.idea/\n.vscode/\n*.swp\n*.swo\n\n# OS\n.DS_Store\nThumbs.db\n\n# Anchor\n.anchor/\nnode_modules/\n"@
}

/// Whether a template holds row `i` of the table.
pub open spec fn template_is(t: Template, i: int) -> bool {
    let (id, name, description, difficulty, features) = template_row(i);
    &&& t.metadata.id@ == id
    &&& t.metadata.name@ == name
    &&& t.metadata.description@ == description
    &&& t.metadata.difficulty == difficulty
    &&& t.metadata.features@.map_values(|f: String| f@) == features
    &&& t.gitignore@ == gitignore_text()
}

/// The `.gitignore` every template's project gets.
pub fn gitignore() -> (s: String)
    ensures
        s@ == gitignore_text(),
{
    "# Build outputs\n/output/\n/target/\n\n# IDE\n.idea/\n.vscode/\n*.swp\n*.swo\n\n# OS\n.DS_Store\nThumbs.db\n\n# Anchor\n.anchor/\nnode_modules/\n".to_owned()
}

fn template_entry(id: &str, name: &str, description: &str, difficulty: Difficulty, features: Vec<String>) -> (t: Template)
    ensures
        t.metadata.id@ == id@,
        t.metadata.name@ == name@,
        t.metadata.description@ == description@,
        t.metadata.difficulty == difficulty,
        t.metadata.features@ == features@,
        t.gitignore@ == gitignore_text(),
{
    Template {
        metadata: TemplateMetadata {
            id: id.to_owned(),
            name: name.to_owned(),
            description: description.to_owned(),
            difficulty,
            features,
        },
        gitignore: gitignore(),
    }
}

/// All templates, in the order of the table.
pub fn templates() -> (v: Vec<Template>)
    ensures
        v@.len() == template_count(),
        forall|i: int| 0 <= i < v@.len() ==> template_is(#[trigger] v@[i], i),
{
    let mut v: Vec<Template> = Vec::new();
    v.push(template_entry("simple", "Simple", "Minimal contract for learning", Difficulty::Beginner, vec!["state variables".to_owned(), "constructor".to_owned(), "view functions".to_owned()]));
    proof {
        assert(v@[0].metadata.features@.map_values(|f: String| f@) =~= template_row(0).4);
    }
    v.push(template_entry("counter", "Counter", "Counter with ownership and access control", Difficulty::Beginner, vec!["events".to_owned(), "errors".to_owned(), "modifiers".to_owned(), "access control".to_owned()]));
    proof {
        assert(v@[1].metadata.features@.map_values(|f: String| f@) =~= template_row(1).4);
    }
    v.push(template_entry("token", "Token", "ERC20-style fungible token", Difficulty::Intermediate, vec!["mappings".to_owned(), "transfers".to_owned(), "approvals".to_owned(), "pausable".to_owned(), "mintable".to_owned()]));
    proof {
        assert(v@[2].metadata.features@.map_values(|f: String| f@) =~= template_row(2).4);
    }
    v.push(template_entry("voting", "Voting", "Decentralized voting system", Difficulty::Intermediate, vec!["structs".to_owned(), "enums".to_owned(), "time-based logic".to_owned(), "weighted votes".to_owned()]));
    proof {
        assert(v@[3].metadata.features@.map_values(|f: String| f@) =~= template_row(3).4);
    }
    v.push(template_entry("escrow", "Escrow", "Trustless escrow with dispute resolution", Difficulty::Advanced, vec!["state machine".to_owned(), "multi-party".to_owned(), "deadlines".to_owned(), "dispute resolution".to_owned()]));
    proof {
        assert(v@[4].metadata.features@.map_values(|f: String| f@) =~= template_row(4).4);
    }
    v.push(template_entry("nft", "NFT", "ERC721-style NFT collection", Difficulty::Advanced, vec!["metadata".to_owned(), "minting".to_owned(), "approvals".to_owned(), "operator pattern".to_owned()]));
    proof {
        assert(v@[5].metadata.features@.map_values(|f: String| f@) =~= template_row(5).4);
    }
    v
}

/// The template with the given id.
pub fn get_template(id: &str) -> (r: Option<Template>)
    ensures
        match r {
            Some(t) => exists|i: int| 0 <= i < template_count() && template_row(i).0 == id@ && #[trigger] template_is(t, i),
            None => forall|i: int| 0 <= i < template_count() ==> #[trigger] template_row(i).0 != id@,
        },
{
    let mut all = templates();
    let mut i: usize = 0;
    while i < all.len()
        invariant
            i <= all@.len(),
            all@.len() == template_count(),
            forall|k: int| 0 <= k < all@.len() ==> template_is(#[trigger] all@[k], k),
            forall|k: int| 0 <= k < i ==> #[trigger] template_row(k).0 != id@,
        decreases all@.len() - i,
    {
        if str_eq(all[i].metadata.id.as_str(), id) {
            let ghost k = i as int;
            let t = all.swap_remove(i);
            proof {
                assert(template_is(t, k));
            }
            return Some(t);
        }
        proof {
            assert(template_is(all@[i as int], i as int));
        }
        i = i + 1;
    }
    None
}

/// Whether a character separates the words of a project name.
pub open spec fn name_sep(c: char) -> bool {
    c == '-' || c == '_' || space_prop(c)
}

/// A project name as a contract name from `start` on: separators are dropped and the
/// first character of each word is put in Unicode upper case.
pub open spec fn contract_name_from(s: Seq<char>, start: bool) -> Seq<char>
    decreases s.len(),
{
    if s.len() == 0 {
        seq![]
    } else if name_sep(s[0]) {
        contract_name_from(s.drop_first(), true)
    } else if start {
        upper_full(s[0]) + contract_name_from(s.drop_first(), false)
    } else {
        seq![s[0]] + contract_name_from(s.drop_first(), false)
    }
}

/// The contract name of a new project: its name in Pascal case.
pub open spec fn contract_name(s: Seq<char>) -> Seq<char> {
    contract_name_from(s, true)
}

/// The contract name of a new project: the words of its name, split at `-`, `_` and
/// white space, each with its first character in upper case, run together.
pub fn to_pascal_case(s: &str) -> (r: String)
    ensures
        r@ == contract_name(s@),
{
    let cs = chars_of(s);
    let mut out = String::new();
    let mut start = true;
    let mut i: usize = 0;
    proof {
        assert(cs@.skip(0) =~= cs@);
    }
    while i < cs.len()
        invariant
            i <= cs@.len(),
            cs@ == s@,
            out@ + contract_name_from(cs@.skip(i as int), start) == contract_name(s@),
        decreases cs@.len() - i,
    {
        let c = cs[i];
        proof {
            assert(cs@.skip(i as int)[0] == c);
            assert(cs@.skip(i as int).drop_first() =~= cs@.skip(i + 1));
        }
        if c == '-' || c == '_' || is_whitespace(c) {
            start = true;
        } else if start {
            let u = to_uppercase_string(c);
            let ghost before = out@;
            push_str(&mut out, u.as_str());
            proof {
                assert(out@ + contract_name_from(cs@.skip(i + 1), false) =~= before + (u@ + contract_name_from(cs@.skip(i + 1), false)));
            }
            start = false;
        } else {
            let ghost before = out@;
            push_char(&mut out, c);
            proof {
                assert(out@ + contract_name_from(cs@.skip(i + 1), false) =~= before + (seq![c] + contract_name_from(cs@.skip(i + 1), false)));
            }
        }
        i = i + 1;
    }
    proof {
        assert(cs@.skip(i as int).len() == 0);
        assert(out@ + contract_name_from(cs@.skip(i as int), start) =~= out@);
    }
    out
}

/// The features of a template as a list, one `- feature` per line.
pub open spec fn features_list_s(fs: Seq<Seq<char>>) -> Seq<char> {
    join(fs.map_values(|f: Seq<char>| "- "@ + f), "\n"@)
}

/// The features of a template as a list, one `- feature` per line.
pub fn features_list(features: &Vec<String>) -> (r: String)
    ensures
        r@ == features_list_s(features@.map_values(|f: String| f@)),
{
    let ghost fs = features@.map_values(|f: String| f@);
    let mut items: Vec<String> = Vec::new();
    let mut i: usize = 0;
    while i < features.len()
        invariant
            i <= features@.len(),
            fs == features@.map_values(|f: String| f@),
            strs_v(items@) == fs.take(i as int).map_values(|f: Seq<char>| "- "@ + f),
        decreases features@.len() - i,
    {
        let mut x = "- ".to_owned();
        push_str(&mut x, features[i].as_str());
        let ghost before = items@;
        items.push(x);
        proof {
            assert(strs_v(items@) =~= strs_v(before).push(x@));
            assert(fs.take(i + 1).map_values(|f: Seq<char>| "- "@ + f) =~= fs.take(i as int).map_values(|f: Seq<char>| "- "@ + f).push(
                "- "@ + fs[i as int],
            ));
        }
        i = i + 1;
    }
    proof {
        assert(fs.take(i as int) =~= fs);
    }
    join_strings(&items, "\n")
}

/// A text with each occurrence of a non-empty pattern, from the left and without
/// overlap, replaced.
pub open spec fn replace_s(s: Seq<char>, p: Seq<char>, r: Seq<char>) -> Seq<char>
    decreases s.len(),
{
    if s.len() == 0 || p.len() == 0 {
        s
    } else if p.len() <= s.len() && s.subrange(0, p.len() as int) == p {
        r + replace_s(s.skip(p.len() as int), p, r)
    } else {
        seq![s[0]] + replace_s(s.drop_first(), p, r)
    }
}

/// A text with each occurrence of a non-empty pattern, from the left and without
/// overlap, replaced.
pub fn replace_all(s: &str, p: &str, r: &str) -> (out: String)
    requires
        p@.len() > 0,
    ensures
        out@ == replace_s(s@, p@, r@),
{
    let cs = chars_of(s);
    let ps = chars_of(p);
    let mut out = String::new();
    let mut i: usize = 0;
    proof {
        assert(cs@.skip(0) =~= cs@);
    }
    while i < cs.len()
        invariant
            i <= cs@.len(),
            cs@ == s@,
            ps@ == p@,
            ps@.len() > 0,
            out@ + replace_s(cs@.skip(i as int), p@, r@) == replace_s(s@, p@, r@),
        decreases cs@.len() - i,
    {
        let ghost rest = cs@.skip(i as int);
        if ps.len() <= cs.len() - i && chars_match_at(&cs, i, &ps) {
            proof {
                assert(rest.subrange(0, p@.len() as int) =~= cs@.subrange(i as int, i + p@.len()));
                assert(rest.skip(p@.len() as int) =~= cs@.skip(i + p@.len()));
            }
            let ghost before = out@;
            push_str(&mut out, r);
            proof {
                assert(out@ + replace_s(cs@.skip(i + p@.len()), p@, r@) =~= before + (r@ + replace_s(cs@.skip(i + p@.len()), p@, r@)));
            }
            i = i + ps.len();
        } else {
            proof {
                if p@.len() <= rest.len() {
                    assert(rest.subrange(0, p@.len() as int) =~= cs@.subrange(i as int, i + p@.len()));
                }
                assert(rest[0] == cs@[i as int]);
                assert(rest.drop_first() =~= cs@.skip(i + 1));
            }
            let ghost before = out@;
            push_char(&mut out, cs[i]);
            proof {
                assert(out@ + replace_s(cs@.skip(i + 1), p@, r@) =~= before + (seq![cs@[i as int]] + replace_s(cs@.skip(i + 1), p@, r@)));
            }
            i = i + 1;
        }
    }
    proof {
        assert(cs@.skip(i as int).len() == 0);
        assert(out@ + replace_s(cs@.skip(i as int), p@, r@) =~= out@);
    }
    out
}

/// The configuration of a new project: the template's text with the project name, the
/// contract name and the description put in.
pub open spec fn config_content_s(text: Seq<char>, name: Seq<char>, description: Seq<char>) -> Seq<char> {
    replace_s(
        replace_s(replace_s(text, "{{PROJECT_NAME}}"@, name), "{{CONTRACT_NAME}}"@, contract_name(name)),
        "{{DESCRIPTION}}"@,
        description,
    )
}

/// The configuration of a new project: the template's text with the project name, the
/// contract name and the description put in.
pub fn config_content(text: &str, name: &str, description: &str) -> (r: String)
    ensures
        r@ == config_content_s(text@, name@, description@),
{
    proof {
        reveal_strlit("{{PROJECT_NAME}}");
        reveal_strlit("{{CONTRACT_NAME}}");
        reveal_strlit("{{DESCRIPTION}}");
    }
    let contract = to_pascal_case(name);
    let a = replace_all(text, "{{PROJECT_NAME}}", name);
    let b = replace_all(a.as_str(), "{{CONTRACT_NAME}}", contract.as_str());
    replace_all(b.as_str(), "{{DESCRIPTION}}", description)
}

/// The README of a new project: the template's text with the project name, the contract
/// name, the description and the list of features put in.
pub open spec fn readme_content_s(text: Seq<char>, name: Seq<char>, description: Seq<char>, features: Seq<Seq<char>>) -> Seq<char> {
    replace_s(config_content_s(text, name, description), "{{FEATURES_LIST}}"@, features_list_s(features))
}

/// The README of a new project: the template's text with the project name, the contract
/// name, the description and the list of features put in.
pub fn readme_content(text: &str, name: &str, description: &str, features: &Vec<String>) -> (r: String)
    ensures
        r@ == readme_content_s(text@, name@, description@, features@.map_values(|f: String| f@)),
{
    proof {
        reveal_strlit("{{FEATURES_LIST}}");
    }
    let list = features_list(features);
    let c = config_content(text, name, description);
    replace_all(c.as_str(), "{{FEATURES_LIST}}", list.as_str())
}

} // verus!
