//! The template regenerator: the fixed set of generated files inside a
//! link's working copy, their exact contents, and the proof that
//! regenerating twice with unchanged inputs changes nothing the second
//! time.

use vstd::prelude::*;
use vstd::map::*;

verus! {

/// The agent-facing instructions file.
pub open spec fn agents_md_spec(display: Seq<char>, owner: Seq<char>) -> Seq<char> {
    "# Shared correspondence\n\nThis repository is the shared mailbox between "@ + display
        + " and "@ + owner
        + ".\n\nConversation threads live under conversations/; draft replies under drafts/.\nCommit and push to send; pull to receive.\n"@
}

/// The human-facing readme.
pub open spec fn readme_md_spec(display: Seq<char>, owner: Seq<char>) -> Seq<char> {
    "# Correspondence: "@ + display + "\n\nShared conversation threads between "@ + display
        + " and "@ + owner + ". Generated files in this repository are rewritten on reset.\n"@
}

/// The ignore-rules file.
pub open spec fn gitignore_spec() -> Seq<char> {
    "AGENTS.local.md\nASSISTANT.local.md\n__pycache__/\n"@
}

pub fn generate_agents_md(display: &str, owner: &str) -> (r: String)
    ensures
        r@ == agents_md_spec(display@, owner@),
{
    let mut r = String::from_str(
        "# Shared correspondence\n\nThis repository is the shared mailbox between ",
    );
    r.append(display);
    r.append(" and ");
    r.append(owner);
    r.append(
        ".\n\nConversation threads live under conversations/; draft replies under drafts/.\nCommit and push to send; pull to receive.\n",
    );
    r
}

pub fn generate_readme_md(display: &str, owner: &str) -> (r: String)
    ensures
        r@ == readme_md_spec(display@, owner@),
{
    let mut r = String::from_str("# Correspondence: ");
    r.append(display);
    r.append("\n\nShared conversation threads between ");
    r.append(display);
    r.append(" and ");
    r.append(owner);
    r.append(". Generated files in this repository are rewritten on reset.\n");
    r
}

pub fn gitignore_content() -> (r: String)
    ensures
        r@ == gitignore_spec(),
{
    String::from_str("AGENTS.local.md\nASSISTANT.local.md\n__pycache__/\n")
}

/// The generated files as a mapping of path to bytes.  The aliasing link
/// (`ASSISTANT.md`) is represented by the name of its target.
pub open spec fn regen_map(
    display: Seq<char>,
    owner: Seq<char>,
    voice: Option<Seq<char>>,
) -> Map<Seq<char>, Seq<char>> {
    let m = Map::<Seq<char>, Seq<char>>::empty().insert(
        "AGENTS.md"@,
        agents_md_spec(display, owner),
    ).insert("ASSISTANT.md"@, "AGENTS.md"@).insert("README.md"@, readme_md_spec(display, owner))
        .insert(".gitignore"@, gitignore_spec());
    match voice {
        Some(v) => m.insert("voice.md"@, v),
        None => m,
    }
}

/// A working copy (as a mapping of path to bytes) after one regeneration:
/// every generated file overwritten, everything else untouched.
pub open spec fn apply_regen(
    files: Map<Seq<char>, Seq<char>>,
    display: Seq<char>,
    owner: Seq<char>,
    voice: Option<Seq<char>>,
) -> Map<Seq<char>, Seq<char>> {
    files.union_prefer_right(regen_map(display, owner, voice))
}

/// Regeneration is idempotent: a second regeneration with unchanged
/// inputs rewrites every file with the bytes it already holds, so the
/// working copy is byte-identical afterwards and the second pass stages
/// zero changes.
pub proof fn lemma_regen_idempotent(
    files: Map<Seq<char>, Seq<char>>,
    display: Seq<char>,
    owner: Seq<char>,
    voice: Option<Seq<char>>,
)
    ensures
        apply_regen(apply_regen(files, display, owner, voice), display, owner, voice)
            == apply_regen(files, display, owner, voice),
{
    let once = apply_regen(files, display, owner, voice);
    let twice = apply_regen(once, display, owner, voice);
    assert(twice =~= once);
}

/// One generated file: where it goes and what it holds.
pub struct RegenFile {
    pub path: String,
    pub content: String,
}

/// The generated files, in the order they are written: the instructions
/// file, the aliasing link (by its target), the readme, the ignore rules,
/// and the shared auxiliary file when a source copy exists.
pub fn template_files(display: &str, owner: &str, voice: Option<&String>) -> (r: Vec<RegenFile>)
    ensures
        r@.len() == (match voice {
            Some(_) => 5int,
            None => 4int,
        }),
        r@[0].path@ == "AGENTS.md"@ && r@[0].content@ == agents_md_spec(display@, owner@),
        r@[1].path@ == "ASSISTANT.md"@ && r@[1].content@ == "AGENTS.md"@,
        r@[2].path@ == "README.md"@ && r@[2].content@ == readme_md_spec(display@, owner@),
        r@[3].path@ == ".gitignore"@ && r@[3].content@ == gitignore_spec(),
        voice matches Some(v) ==> r@[4].path@ == "voice.md"@ && r@[4].content@ == v@,
{
    let mut r: Vec<RegenFile> = Vec::new();
    r.push(
        RegenFile {
            path: String::from_str("AGENTS.md"),
            content: generate_agents_md(display, owner),
        },
    );
    r.push(RegenFile { path: String::from_str("ASSISTANT.md"), content: String::from_str("AGENTS.md") });
    r.push(
        RegenFile {
            path: String::from_str("README.md"),
            content: generate_readme_md(display, owner),
        },
    );
    r.push(RegenFile { path: String::from_str(".gitignore"), content: gitignore_content() });
    match voice {
        Some(v) => {
            r.push(RegenFile { path: String::from_str("voice.md"), content: v.clone() });
        },
        None => {},
    }
    r
}

} // verus!
