//! The manifest store: reading the stored records out of the manifest
//! file's text and rendering them back, plus the loader script that is
//! regenerated in full on every run.
//!
//! File I/O stays with the caller: these functions map text to records and
//! records to text. The YAML reader and writer are outside code, reached
//! through the trusted items below; everything around them is verified.

use crate::codec::{items_view, parse_record, record_yaml, yview, Doc, DocV};
use crate::error::Error;
use crate::package::{join_commas, join_types, rest_commas, Package, PackageV};
use vstd::prelude::*;

verus! {

/// What the YAML reader yields for a text: the parsed documents, or
/// nothing when the text is not well-formed YAML. The result depends on
/// the text alone.
pub uninterp spec fn parsed_yaml(s: Seq<char>) -> Option<Seq<DocV>>;

/// What the YAML writer emits for a document. The result depends on the
/// document alone.
pub uninterp spec fn emitted_yaml(d: DocV) -> Seq<char>;

/// The YAML reader and writer's own node type, opaque to the library: a
/// node is converted to and from the manifest document model whole.
#[verifier::external_type_specification]
#[verifier::external_body]
pub struct ExYamlNode(yaml_rust::Yaml);

/// Converts a parsed node into the manifest document model, one arm per
/// shape the manifest format uses; any other shape becomes `Other`, and a
/// non-string hash key empties its key text.
#[verifier::external_body]
fn yaml_to_doc(y: yaml_rust::Yaml) -> Doc {
    match y {
        yaml_rust::Yaml::String(s) => Doc::Str(s),
        yaml_rust::Yaml::Boolean(b) => Doc::Bool(b),
        yaml_rust::Yaml::Array(v) => Doc::Array(v.into_iter().map(yaml_to_doc).collect()),
        yaml_rust::Yaml::Hash(h) => Doc::Hash(
            h.into_iter().map(
                |(k, v)| (k.into_string().unwrap_or_default(), yaml_to_doc(v)),
            ).collect(),
        ),
        _ => Doc::Other,
    }
}

/// Relies on yaml_rust::YamlLoader::load_from_str: parses YAML text into a
/// list of documents, or fails on malformed text with the scanner's
/// diagnostic. The parse depends on the text alone; nothing is promised of
/// the diagnostic's wording.
#[verifier::external_body]
fn load_yaml(s: &str) -> (r: Result<Vec<Doc>, String>)
    ensures
        r is Ok <==> parsed_yaml(s@) is Some,
        r matches Ok(docs) ==> parsed_yaml(s@) == Some(docs.deep_view()),
{
    match yaml_rust::YamlLoader::load_from_str(s) {
        Ok(docs) => Ok(docs.into_iter().map(yaml_to_doc).collect()),
        Err(e) => Err(e.to_string()),
    }
}

/// Converts a document node back for the writer, one arm per shape;
/// `Other`, which the codec never produces, becomes a null node.
#[verifier::external_body]
fn doc_to_yaml(d: &Doc) -> yaml_rust::Yaml {
    match d {
        Doc::Str(s) => yaml_rust::Yaml::String(s.clone()),
        Doc::Bool(b) => yaml_rust::Yaml::Boolean(*b),
        Doc::Array(v) => yaml_rust::Yaml::Array(v.iter().map(doc_to_yaml).collect()),
        Doc::Hash(pairs) => yaml_rust::Yaml::Hash(
            pairs.iter().map(
                |(k, v)| (yaml_rust::Yaml::String(k.clone()), doc_to_yaml(v)),
            ).collect(),
        ),
        Doc::Other => yaml_rust::Yaml::Null,
    }
}

/// Relies on yaml_rust::YamlEmitter::dump: renders one document as YAML
/// text. What it emits depends on the document alone. Success is owed:
/// writing into a `String` cannot fail (`fmt::Write` on `String` is
/// infallible), and the emitter's only error variant is never constructed,
/// so the call has no failure path.
#[verifier::external_body]
fn dump_yaml(doc: &Doc) -> (r: Option<String>)
    ensures
        r is Some,
        r matches Some(t) ==> t@ == emitted_yaml(doc@),
{
    let mut out = String::new();
    let y = doc_to_yaml(doc);
    match yaml_rust::YamlEmitter::new(&mut out).dump(&y) {
        Ok(_) => Some(out),
        Err(_) => None,
    }
}

/// The records of an entry list, or nothing when any entry is malformed:
/// no partial manifest is ever read.
pub open spec fn parse_entries(items: Seq<DocV>) -> Option<Seq<PackageV>>
    decreases items.len(),
{
    if items.len() == 0 {
        Some(Seq::empty())
    } else {
        match parse_record(items[0]) {
            Some(p) => match parse_entries(items.drop_first()) {
                Some(rest) => Some(seq![p] + rest),
                None => None,
            },
            None => None,
        }
    }
}

pub proof fn lemma_parse_entries(items: Seq<DocV>)
    ensures
        parse_entries(items) is Some <==> (forall|j: int|
            0 <= j < items.len() ==> parse_record(items[j]) is Some),
        parse_entries(items) matches Some(ps) ==> ps.len() == items.len() && forall|j: int|
            0 <= j < items.len() ==> ps[j] == parse_record(items[j])->Some_0,
    decreases items.len(),
{
    if items.len() > 0 {
        lemma_parse_entries(items.drop_first());
        if parse_record(items[0]) is Some {
            assert forall|j: int| 0 <= j < items.len() implies (parse_entries(items) is Some
                ==> parse_record(items[j]) is Some) by {
                if j > 0 {
                    assert(items.drop_first()[j - 1] == items[j]);
                }
            }
            if parse_entries(items.drop_first()) is Some {
                let ps = parse_entries(items)->Some_0;
                let rest = parse_entries(items.drop_first())->Some_0;
                assert forall|j: int| 0 <= j < items.len() implies ps[j] == parse_record(
                    items[j],
                )->Some_0 by {
                    if j > 0 {
                        assert(items.drop_first()[j - 1] == items[j]);
                        assert(ps[j] == rest[j - 1]);
                    }
                }
            }
        }
    }
}

/// The records a loaded manifest denotes: the first document must be a
/// list of entries; an empty text or a non-list first document is an empty
/// store, exactly as a missing file is.
pub open spec fn manifest_records(docs: Seq<DocV>) -> Option<Seq<PackageV>> {
    if docs.len() == 0 {
        Some(Seq::empty())
    } else {
        match docs[0] {
            DocV::Array(items) => parse_entries(items),
            _ => Some(Seq::empty()),
        }
    }
}

/// Loads the stored records from the manifest file's text. `None` stands
/// for a missing manifest file: the empty store of a first run, not an
/// error. A text that does not parse, or any malformed entry, fails the
/// whole load.
#[verifier::loop_isolation(false)]
pub fn fetch(config: Option<&str>) -> (r: Result<Vec<Package>, Error>)
    ensures
        config is None ==> (r matches Ok(v) && v@.len() == 0),
        config matches Some(s) ==> match parsed_yaml(s@) {
            None => (r matches Err(e) && e matches Error::PaconfigFile(_)),
            Some(docs) => match manifest_records(docs) {
                Some(ps) => (r matches Ok(v) && v.deep_view() == ps),
                None => (r matches Err(e) && e matches Error::PaconfigFile(_)),
            },
        },
{
    let text = match config {
        Some(t) => t,
        None => {
            return Ok(Vec::new());
        },
    };
    let docs = match load_yaml(text) {
        Ok(d) => d,
        Err(diag) => {
            let mut msg = "Fail to parse paconfig: ".to_owned();
            msg.append(diag.as_str());
            return Err(Error::PaconfigFile(msg));
        },
    };
    if docs.len() == 0 {
        return Ok(Vec::new());
    }
    let first = &docs[0];
    proof {
        assert(docs.deep_view()[0] == yview(docs@[0]));
    }
    match first {
        Doc::Array(items) => {
            proof {
                assert(yview(*first)->Array_0 =~~= items_view(items@));
            }
            let ghost giv = items_view(items@);
            let mut out: Vec<Package> = Vec::new();
            let mut i: usize = 0;
            while i < items.len()
                invariant
                    i <= items@.len(),
                    giv == items_view(items@),
                    out@.len() == i,
                    forall|j: int| 0 <= j < i ==> parse_record(#[trigger] giv[j]) is Some,
                    forall|j: int|
                        0 <= j < i ==> #[trigger] out@[j]@ == parse_record(giv[j])->Some_0,
                decreases items@.len() - i,
            {
                proof {
                    assert(giv[i as int] == yview(items@[i as int]));
                }
                let ghost gout = out@;
                match Package::from_yaml(&items[i]) {
                    Ok(p) => {
                        let ghost gp = p@;
                        out.push(p);
                        proof {
                            assert(parse_record(giv[i as int]) == Some(gp));
                            assert(out@[i as int]@ == gp);
                            assert forall|j: int| 0 <= j < i implies out@[j] == gout[j] by {}
                        }
                    },
                    Err(_) => {
                        proof {
                            lemma_parse_entries(giv);
                        }
                        return Err(
                            Error::PaconfigFile("Fail to parse paconfig: bad entry".to_owned()),
                        );
                    },
                }
                i = i + 1;
            }
            proof {
                lemma_parse_entries(giv);
                assert(out.deep_view() =~= parse_entries(giv)->Some_0);
            }
            Ok(out)
        },
        _ => Ok(Vec::new()),
    }
}

/// The whole-manifest document: one entry per record, in list order.
pub open spec fn manifest_yaml(ps: Seq<PackageV>) -> DocV {
    DocV::Array(
        Seq::new(
            ps.len(),
            |i: int|
                if 0 <= i < ps.len() {
                    record_yaml(ps[i])
                } else {
                    DocV::Other
                },
        ),
    )
}

/// Renders the full record list as the manifest file's contents: the fixed
/// comment header, then the document. Rendering always succeeds; only the
/// write can fail, and that stays with the caller, who replaces the
/// previous file entirely.
#[verifier::loop_isolation(false)]
pub fn render_paconfig(packs: &Vec<Package>) -> (r: String)
    ensures
        r@ == "# vim: ft=yaml\n#\n# Written by pac.\n\n"@ + emitted_yaml(
            manifest_yaml(packs.deep_view()),
        ),
{
    let mut entries: Vec<Doc> = Vec::new();
    let mut i: usize = 0;
    while i < packs.len()
        invariant
            i <= packs@.len(),
            entries@.len() == i,
            forall|j: int| 0 <= j < i ==> yview(entries@[j]) == record_yaml(packs.deep_view()[j]),
        decreases packs@.len() - i,
    {
        let entry = packs[i].clone().into_yaml();
        entries.push(entry);
        i = i + 1;
    }
    let doc = Doc::Array(entries);
    proof {
        assert(yview(doc)->Array_0 =~~= manifest_yaml(packs.deep_view())->Array_0);
        assert(yview(doc) =~~= manifest_yaml(packs.deep_view()));
    }
    let t = match dump_yaml(&doc) {
        Some(t) => t,
        None => unreached(),
    };
    let mut out = "# vim: ft=yaml\n#\n# Written by pac.\n\n".to_owned();
    out.append(t.as_str());
    out
}

/// The loader-script lines one record contributes: a comment naming the
/// package, then its deferred-load command and its auto-load rule, or
/// nothing when it has neither.
pub open spec fn plugin_block(p: PackageV) -> Seq<char> {
    let cmd = match p.load_command {
        Some(c) => "command! -nargs=* -range -bang "@ + c + " packadd "@ + p.name
            + " | call s:do_cmd('"@ + c + "', \"<bang>\", <line1>, <line2>, <q-args>)\n\n"@,
        None => Seq::empty(),
    };
    let auto = if p.for_types.len() > 0 {
        "autocmd FileType "@ + join_commas(p.for_types) + " packadd "@ + p.name + "\n\n"@
    } else {
        Seq::empty()
    };
    if p.load_command is Some || p.for_types.len() > 0 {
        "\" "@ + p.name + "\n"@ + cmd + auto
    } else {
        Seq::empty()
    }
}

pub open spec fn plugin_blocks(ps: Seq<PackageV>) -> Seq<char>
    decreases ps.len(),
{
    if ps.len() == 0 {
        Seq::empty()
    } else {
        plugin_block(ps[0]) + plugin_blocks(ps.drop_first())
    }
}

/// Renders the loader script for the record list: the fixed preamble, then
/// each package's trigger lines. It is regenerated in full on every run;
/// the caller writes it out, replacing the previous script.
#[verifier::loop_isolation(false)]
#[verifier::rlimit(100)]
#[verifier::spinoff_prover]
pub fn render_pac_plugin(packs: &Vec<Package>) -> (r: String)
    ensures
        r@ == "\" Maintained by pac; edits are overwritten.\n\nscriptencoding utf-8\n\nfunction! s:do_cmd(cmd, bang, start, end, args)\n    exec printf('%s%s%s %s', (a:start == a:end ? '' : (a:start.','.a:end)), a:cmd, a:bang, a:args)\nendfunction\n\n\n"@
            + plugin_blocks(packs.deep_view()),
{
    let ghost gp = packs.deep_view();
    let mut r =
        "\" Maintained by pac; edits are overwritten.\n\nscriptencoding utf-8\n\nfunction! s:do_cmd(cmd, bang, start, end, args)\n    exec printf('%s%s%s %s', (a:start == a:end ? '' : (a:start.','.a:end)), a:cmd, a:bang, a:args)\nendfunction\n\n\n".to_owned();
    let ghost ghead = r@;
    let mut i: usize = 0;
    proof {
        assert(gp.skip(0) =~= gp);
    }
    while i < packs.len()
        invariant
            i <= packs@.len(),
            gp == packs.deep_view(),
            r@ + plugin_blocks(gp.skip(i as int)) == ghead + plugin_blocks(gp),
        decreases packs@.len() - i,
    {
        let ghost gr = r@;
        let p = &packs[i];
        let has_cmd: bool = match &p.load_command {
            Some(_) => true,
            None => false,
        };
        if has_cmd || p.for_types.len() > 0 {
            r.append("\" ");
            r.append(p.name.as_str());
            r.append("\n");
            match &p.load_command {
                Some(c) => {
                    r.append("command! -nargs=* -range -bang ");
                    r.append(c.as_str());
                    r.append(" packadd ");
                    r.append(p.name.as_str());
                    r.append(" | call s:do_cmd('");
                    r.append(c.as_str());
                    r.append("', \"<bang>\", <line1>, <line2>, <q-args>)\n\n");
                },
                None => {},
            }
            if p.for_types.len() > 0 {
                r.append("autocmd FileType ");
                let joined = join_types(&p.for_types);
                r.append(joined.as_str());
                r.append(" packadd ");
                r.append(p.name.as_str());
                r.append("\n\n");
            }
            proof {
                assert(r@ =~= gr + plugin_block(gp[i as int]));
            }
        } else {
            proof {
                assert(plugin_block(gp[i as int]) =~= Seq::<char>::empty());
                assert(r@ =~= gr + plugin_block(gp[i as int]));
            }
        }
        proof {
            assert(gp.skip(i as int)[0] == gp[i as int]);
            assert(gp.skip(i as int).drop_first() =~= gp.skip(i + 1));
            assert((gr + plugin_block(gp[i as int])) + plugin_blocks(gp.skip(i + 1)) =~= gr + (
            plugin_block(gp[i as int]) + plugin_blocks(gp.skip(i + 1))));
        }
        i = i + 1;
    }
    proof {
        assert(gp.skip(i as int) =~= Seq::<PackageV>::empty());
        assert(r@ + Seq::<char>::empty() =~= r@);
        assert(ghead + plugin_blocks(gp) =~= "\" Maintained by pac; edits are overwritten.\n\nscriptencoding utf-8\n\nfunction! s:do_cmd(cmd, bang, start, end, args)\n    exec printf('%s%s%s %s', (a:start == a:end ? '' : (a:start.','.a:end)), a:cmd, a:bang, a:args)\nendfunction\n\n\n"@
            + plugin_blocks(gp));
    }
    r
}

} // verus!
