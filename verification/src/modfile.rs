//! The `.mod` files that describe a mod to the game launcher, and what is checked of them.
use vstd::prelude::*;

use crate::block::{field_values, last_field_bv, loose_values, Block, BV};
use crate::report::builder::{simple_report, untidy, warn};
use crate::report::error_key::ErrorKey;
use crate::report::errors::{lemma_logged_nothing, lemma_logged_trans, Errors};
use crate::report::report_struct::{Confidence, ReportView, Severity};
use crate::text::string_of;
use crate::token::Token;

verus! {

/// The value of the last field `name` of `block`, if it is an assignment `name = value`.
pub open spec fn value_field(block: Block, name: Seq<char>) -> Option<Token> {
    match last_field_bv(block.v@, name) {
        Some(BV::Value(t)) => Some(t),
        _ => None,
    }
}

/// The loose values of the block of the last field `name` of `block`, if that field has a block.
pub open spec fn list_field(block: Block, name: Seq<char>) -> Option<Seq<Token>> {
    match last_field_bv(block.v@, name) {
        Some(BV::Block(b)) => Some(loose_values(b.v@)),
        _ => None,
    }
}

/// The content of a `.mod` file.
#[derive(Debug)]
pub struct ModFile {
    block: Block,
    name: Option<Token>,
    path: Option<Token>,
    replace_paths: Vec<Token>,
    version: Option<Token>,
    tags: Option<Vec<Token>>,
    supported_version: Option<Token>,
    picture: Option<Token>,
}

/// The fields of a `.mod` file.
pub struct ModFileView {
    pub name: Option<Token>,
    pub path: Option<Token>,
    pub replace_paths: Seq<Token>,
    pub version: Option<Token>,
    pub tags: Option<Seq<Token>>,
    pub supported_version: Option<Token>,
    pub picture: Option<Token>,
}

impl View for ModFile {
    type V = ModFileView;

    closed spec fn view(&self) -> ModFileView {
        ModFileView {
            name: self.name,
            path: self.path,
            replace_paths: self.replace_paths@,
            version: self.version,
            tags: match self.tags {
                Some(v) => Some(v@),
                None => None,
            },
            supported_version: self.supported_version,
            picture: self.picture,
        }
    }
}

/// The fields that a `.mod` file's block gives.
pub open spec fn modfile_fields(block: Block) -> ModFileView {
    ModFileView {
        name: value_field(block, "name"@),
        path: value_field(block, "path"@),
        replace_paths: field_values(block.v@, "replace_path"@),
        version: value_field(block, "version"@),
        tags: list_field(block, "tags"@),
        supported_version: value_field(block, "supported_version"@),
        picture: value_field(block, "picture"@),
    }
}

/// The report about a picture other than `thumbnail.png`, which Steam does not use.
pub open spec fn picture_reports(picture: Option<Token>) -> Seq<ReportView> {
    match picture {
        Some(p) => if p@ != "thumbnail.png"@ {
            seq![
                simple_report(
                    ErrorKey::Packaging,
                    Severity::Warning,
                    Confidence::Reasonable,
                    "Steam ignores picture= and always uses thumbnail.png."@,
                    None,
                    p.loc,
                ),
            ]
        } else {
            Seq::empty()
        },
        None => Seq::empty(),
    }
}

/// The report about replacing `history`, which does not replace the directories under it.
pub open spec fn history_report(path: Token) -> ReportView {
    simple_report(
        ErrorKey::Unneeded,
        Severity::Untidy,
        Confidence::Reasonable,
        "replace_path only replaces the specific directory, not any directories below it"@,
        Some("So replace_path = history is not useful, you should replace the paths under it."@),
        path.loc,
    )
}

/// The reports about the replaced paths, in order.
pub open spec fn replace_path_reports(paths: Seq<Token>) -> Seq<ReportView>
    decreases paths.len(),
{
    if paths.len() == 0 {
        Seq::empty()
    } else {
        replace_path_reports(paths.drop_last()) + if paths.last()@ == "history"@ {
            seq![history_report(paths.last())]
        } else {
            Seq::empty()
        }
    }
}

/// Copies of the tokens.
fn copy_tokens(v: &Vec<&Token>) -> (r: Vec<Token>)
    ensures
        r@ == v@.map_values(|t: &Token| *t),
{
    let mut r: Vec<Token> = Vec::new();
    let mut i: usize = 0;
    while i < v.len()
        invariant
            i <= v@.len(),
            r@ == v@.map_values(|t: &Token| *t).take(i as int),
        decreases v@.len() - i,
    {
        r.push(v[i].clone());
        proof {
            assert(r@ =~= v@.map_values(|t: &Token| *t).take(i + 1));
        }
        i = i + 1;
    }
    proof {
        assert(v@.map_values(|t: &Token| *t).take(i as int) =~= v@.map_values(|t: &Token| *t));
    }
    r
}

fn copy_opt(t: Option<&Token>) -> (r: Option<Token>)
    ensures
        r == (match t {
            Some(t) => Some(*t),
            None => None,
        }),
{
    match t {
        Some(t) => Some(t.clone()),
        None => None,
    }
}

/// The texts of the tokens.
pub(crate) fn token_strings(v: &[Token]) -> (r: Vec<String>)
    ensures
        r@.map_values(|s: String| s@) == v@.map_values(|t: Token| t@),
{
    let mut r: Vec<String> = Vec::new();
    let mut i: usize = 0;
    while i < v.len()
        invariant
            i <= v@.len(),
            r@.len() == i,
            r@.map_values(|s: String| s@) == v@.map_values(|t: Token| t@).take(i as int),
        decreases v@.len() - i,
    {
        let ghost before = r@;
        r.push(string_of(v[i].as_str()));
        proof {
            assert(r@ == before.push(r@[i as int]));
            assert(r@.map_values(|s: String| s@) =~= before.map_values(|s: String| s@).push(v@[i as int]@));
            assert(r@.map_values(|s: String| s@) =~= v@.map_values(|t: Token| t@).take(i + 1));
        }
        i = i + 1;
    }
    proof {
        assert(v@.map_values(|t: Token| t@).take(i as int) =~= v@.map_values(|t: Token| t@));
    }
    r
}

/// Read the fields of the block of a `.mod` file, and report a picture that Steam will not use
/// and a replaced `history` directory.
pub fn validate_modfile(block: Block, errors: &mut Errors) -> (m: ModFile)
    ensures
        m@ == modfile_fields(block),
        final(errors).logged(old(errors), picture_reports(m@.picture) + replace_path_reports(m@.replace_paths)),
{
    let name = copy_opt(block.get_field_value("name"));
    let path = copy_opt(block.get_field_value("path"));
    let replace_paths = copy_tokens(&block.get_field_values("replace_path"));
    let version = copy_opt(block.get_field_value("version"));
    let tags = block.get_field_list("tags");
    let supported_version = copy_opt(block.get_field_value("supported_version"));
    let picture = copy_opt(block.get_field_value("picture"));
    let ghost e0 = *errors;
    match &picture {
        Some(p) => {
            if !p.is("thumbnail.png") {
                warn(ErrorKey::Packaging).msg("Steam ignores picture= and always uses thumbnail.png.").loc(p).push(errors);
            } else {
                proof {
                    lemma_logged_nothing(errors);
                }
            }
        },
        None => {
            proof {
                lemma_logged_nothing(errors);
            }
        },
    }
    let ghost e1 = *errors;
    let mut i: usize = 0;
    proof {
        assert(replace_paths@.take(0) =~= Seq::<Token>::empty());
        lemma_logged_nothing(errors);
    }
    while i < replace_paths.len()
        invariant
            i <= replace_paths@.len(),
            errors.logged(&e1, replace_path_reports(replace_paths@.take(i as int))),
        decreases replace_paths@.len() - i,
    {
        let ghost e2 = *errors;
        let path = &replace_paths[i];
        let ghost this = if path@ == "history"@ {
            seq![history_report(*path)]
        } else {
            Seq::<ReportView>::empty()
        };
        if path.is("history") {
            proof {
                reveal_strlit("So replace_path = history is not useful, you should replace the paths under it.");
            }
            untidy(ErrorKey::Unneeded).msg("replace_path only replaces the specific directory, not any directories below it").info(
                "So replace_path = history is not useful, you should replace the paths under it.",
            ).loc(path).push(errors);
        } else {
            proof {
                lemma_logged_nothing(errors);
            }
        }
        proof {
            assert(replace_paths@.take(i + 1).drop_last() =~= replace_paths@.take(i as int));
            assert(replace_paths@.take(i + 1).last() == replace_paths@[i as int]);
            lemma_logged_trans(&e1, &e2, errors, replace_path_reports(replace_paths@.take(i as int)), this);
        }
        i = i + 1;
    }
    proof {
        assert(replace_paths@.take(i as int) =~= replace_paths@);
        lemma_logged_trans(
            old(errors),
            &e1,
            errors,
            picture_reports(picture),
            replace_path_reports(replace_paths@),
        );
    }
    let m = ModFile { block, name, path, replace_paths, version, tags, supported_version, picture };
    m
}

impl ModFile {
    /// The paths that this mod fully replaces, according to its `.mod` file.
    pub fn replace_paths(&self) -> (r: Vec<String>)
        ensures
            r@.map_values(|s: String| s@) == self@.replace_paths.map_values(|t: Token| t@),
    {
        token_strings(self.replace_paths.as_slice())
    }

    /// The mod's name in human-friendly form, if the file gives one.
    pub fn display_name(&self) -> (r: Option<String>)
        ensures
            match r {
                Some(s) => self@.name matches Some(t) && s@ == t@,
                None => self@.name is None,
            },
    {
        match &self.name {
            Some(t) => Some(string_of(t.as_str())),
            None => None,
        }
    }
}

} // verus!
