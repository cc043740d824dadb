//! The manifest document model: a structured tree of the shapes the
//! manifest format uses (strings, booleans, lists, string-keyed maps), and
//! the codec between package records and per-package document entries.
//!
//! Required keys of an entry are `name`, `remote`, `category`, `opt`;
//! `ref`, `on`, `build`, `for` are optional and omitted when empty. A node
//! of any other shape is carried as `Other`: reading it as a string or
//! boolean fails exactly as a missing key does.

use crate::error::Error;
use crate::package::{idname_of, kind_str, parse_kind, GitReference, Package, PackageV, RefKind};
use vstd::prelude::*;

verus! {

broadcast use vstd::std_specs::vec::axiom_vec_index_decreases;

/// One node of a manifest document.
#[derive(Debug, PartialEq)]
pub enum Doc {
    Str(String),
    Bool(bool),
    Array(Vec<Doc>),
    Hash(Vec<(String, Doc)>),
    /// A node of a shape the manifest format does not use (a number, a
    /// null, a non-string key); reading it as a value fails.
    Other,
}

/// The mathematical value of a document node.
#[verifier::ext_equal]
pub enum DocV {
    Str(Seq<char>),
    Bool(bool),
    Array(Seq<DocV>),
    Hash(Seq<(Seq<char>, DocV)>),
    Other,
}

/// The mathematical value of a document node.
pub open spec fn yview(y: Doc) -> DocV
    decreases y,
{
    match y {
        Doc::Str(s) => DocV::Str(s@),
        Doc::Bool(b) => DocV::Bool(b),
        Doc::Array(v) => DocV::Array(
            Seq::new(
                v@.len(),
                |i: int|
                    if 0 <= i < v@.len() {
                        yview(v@[i])
                    } else {
                        DocV::Other
                    },
            ),
        ),
        Doc::Hash(pairs) => DocV::Hash(
            Seq::new(
                pairs@.len(),
                |i: int|
                    if 0 <= i < pairs@.len() {
                        (pairs@[i].0@, yview(pairs@[i].1))
                    } else {
                        (Seq::empty(), DocV::Other)
                    },
            ),
        ),
        Doc::Other => DocV::Other,
    }
}

impl View for Doc {
    type V = DocV;

    #[verifier::inline]
    open spec fn view(&self) -> DocV {
        yview(*self)
    }
}

impl DeepView for Doc {
    type V = DocV;

    #[verifier::inline]
    open spec fn deep_view(&self) -> DocV {
        yview(*self)
    }
}

/// The view of a hash's pair list.
pub open spec fn pairs_view(s: Seq<(String, Doc)>) -> Seq<(Seq<char>, DocV)> {
    Seq::new(
        s.len(),
        |i: int|
            if 0 <= i < s.len() {
                (s[i].0@, s[i].1@)
            } else {
                (Seq::empty(), DocV::Other)
            },
    )
}

/// The view of an array's item list.
pub open spec fn items_view(s: Seq<Doc>) -> Seq<DocV> {
    Seq::new(
        s.len(),
        |i: int|
            if 0 <= i < s.len() {
                s[i]@
            } else {
                DocV::Other
            },
    )
}

/// The value stored under `key`: the first pair with that key, as the
/// manifest codec reads entries.
pub open spec fn lookup(pairs: Seq<(Seq<char>, DocV)>, key: Seq<char>) -> Option<DocV>
    decreases pairs.len(),
{
    if pairs.len() == 0 {
        None
    } else if pairs[0].0 == key {
        Some(pairs[0].1)
    } else {
        lookup(pairs.drop_first(), key)
    }
}

/// Reading a node as text: only a string node yields a value.
pub open spec fn str_of(o: Option<DocV>) -> Option<Seq<char>> {
    match o {
        Some(DocV::Str(s)) => Some(s),
        _ => None,
    }
}

/// Reading a node as a boolean: only a boolean node yields a value.
pub open spec fn bool_of(o: Option<DocV>) -> Option<bool> {
    match o {
        Some(DocV::Bool(b)) => Some(b),
        _ => None,
    }
}

/// What the `ref` node means: absent or non-hash is "no pin"; a hash must
/// open with a known reference kind mapped to text, else the entry is
/// malformed (the outer `None`).
pub open spec fn parse_ref(o: Option<DocV>) -> Option<Option<(RefKind, Seq<char>)>> {
    match o {
        Some(DocV::Hash(sub)) => {
            if sub.len() == 0 {
                None
            } else {
                match sub[0].1 {
                    DocV::Str(v) => match parse_kind(sub[0].0) {
                        Some(k) => Some(Some((k, v))),
                        None => None,
                    },
                    _ => None,
                }
            }
        },
        Some(DocV::Str(_)) => Some(None),
        Some(DocV::Bool(_)) => Some(None),
        Some(DocV::Array(_)) => Some(None),
        Some(DocV::Other) => Some(None),
        None => Some(None),
    }
}

/// What the `for` node means: absent or non-array is an empty type list; an
/// array must hold only strings, else the entry is malformed.
pub open spec fn parse_types(o: Option<DocV>) -> Option<Seq<Seq<char>>> {
    match o {
        Some(DocV::Array(items)) => {
            if forall|i: int| 0 <= i < items.len() ==> items[i] is Str {
                Some(
                    Seq::new(
                        items.len(),
                        |i: int|
                            if 0 <= i < items.len() {
                                items[i]->Str_0
                            } else {
                                Seq::empty()
                            },
                    ),
                )
            } else {
                None
            }
        },
        _ => Some(Seq::empty()),
    }
}

/// The record a document entry denotes, or nothing when the entry is
/// malformed: not a hash, missing or mistyped `name`, `remote`, `category`
/// or `opt`, an unusable `ref` pair, or a non-string under `for`.
pub open spec fn parse_record(d: DocV) -> Option<PackageV> {
    match d {
        DocV::Hash(pairs) => {
            let name = str_of(lookup(pairs, "name"@));
            let remote = str_of(lookup(pairs, "remote"@));
            let reference = parse_ref(lookup(pairs, "ref"@));
            let opt = bool_of(lookup(pairs, "opt"@));
            let category = str_of(lookup(pairs, "category"@));
            let types = parse_types(lookup(pairs, "for"@));
            if name is Some && remote is Some && reference is Some && opt is Some && category
                is Some && types is Some {
                Some(
                    PackageV {
                        name: name->Some_0,
                        idname: idname_of(remote->Some_0),
                        remote: remote->Some_0,
                        reference: reference->Some_0,
                        category: category->Some_0,
                        opt: opt->Some_0,
                        load_command: str_of(lookup(pairs, "on"@)),
                        for_types: types->Some_0,
                        build_command: str_of(lookup(pairs, "build"@)),
                    },
                )
            } else {
                None
            }
        },
        _ => None,
    }
}

/// The `for` node a type list is written as.
pub open spec fn types_yaml(ts: Seq<Seq<char>>) -> DocV {
    DocV::Array(
        Seq::new(
            ts.len(),
            |i: int|
                if 0 <= i < ts.len() {
                    DocV::Str(ts[i])
                } else {
                    DocV::Other
                },
        ),
    )
}

/// The document entry a record is written as: the required keys in fixed
/// order, then each optional key only when it carries something.
pub open spec fn record_yaml(p: PackageV) -> DocV {
    DocV::Hash(
        seq![
            ("name"@, DocV::Str(p.name)),
            ("remote"@, DocV::Str(p.remote)),
            ("category"@, DocV::Str(p.category)),
            ("opt"@, DocV::Bool(p.opt)),
        ] + (match p.reference {
            Some((k, v)) => seq![("ref"@, DocV::Hash(seq![(kind_str(k), DocV::Str(v))]))],
            None => Seq::empty(),
        }) + (match p.load_command {
            Some(c) => seq![("on"@, DocV::Str(c))],
            None => Seq::empty(),
        }) + (match p.build_command {
            Some(c) => seq![("build"@, DocV::Str(c))],
            None => Seq::empty(),
        }) + (if p.for_types.len() > 0 {
            seq![("for"@, types_yaml(p.for_types))]
        } else {
            Seq::empty()
        }),
    )
}

fn lookup_key<'a>(pairs: &'a Vec<(String, Doc)>, key: &String) -> (r: Option<&'a Doc>)
    ensures
        r matches Some(y) ==> lookup(pairs_view(pairs@), key@) == Some(y@),
        r is None ==> lookup(pairs_view(pairs@), key@) is None,
{
    let ghost gp = pairs_view(pairs@);
    let mut i: usize = 0;
    proof {
        assert(gp.skip(0) =~= gp);
    }
    while i < pairs.len()
        invariant
            i <= pairs@.len(),
            gp == pairs_view(pairs@),
            lookup(gp, key@) == lookup(gp.skip(i as int), key@),
        decreases pairs@.len() - i,
    {
        proof {
            assert(gp.skip(i as int)[0] == gp[i as int]);
            assert(gp.skip(i as int).drop_first() =~= gp.skip(i + 1));
        }
        let pr = &pairs[i];
        if pr.0 == *key {
            proof {
                assert(gp[i as int] == (pairs@[i as int].0@, pairs@[i as int].1@));
            }
            return Some(&pr.1);
        }
        proof {
            assert(gp[i as int] == (pairs@[i as int].0@, pairs@[i as int].1@));
        }
        i = i + 1;
    }
    proof {
        assert(gp.skip(i as int) =~= Seq::<(Seq<char>, DocV)>::empty());
    }
    None
}

impl Package {
    /// Parses a record from one entry of the manifest document. Each
    /// malformed shape is a format error; nothing else is.
    #[verifier::loop_isolation(false)]
    pub fn from_yaml(doc: &Doc) -> (r: Result<Package, Error>)
        ensures
            r is Ok <==> parse_record(doc@) is Some,
            r matches Ok(p) ==> parse_record(doc@) == Some(p@),
            r matches Err(e) ==> e == Error::Format,
    {
        let pairs = match doc {
            Doc::Hash(pairs) => pairs,
            _ => {
                return Err(Error::Format);
            },
        };
        proof {
            assert(doc@->Hash_0 =~~= pairs_view(pairs@));
            assert(doc@ =~~= DocV::Hash(pairs_view(pairs@)));
        }
        let ghost gp = pairs_view(pairs@);
        let name: String = match lookup_key(pairs, &String::from_str("name")) {
            Some(Doc::Str(s)) => s.clone(),
            _ => {
                return Err(Error::Format);
            },
        };
        let remote: String = match lookup_key(pairs, &String::from_str("remote")) {
            Some(Doc::Str(s)) => s.clone(),
            _ => {
                return Err(Error::Format);
            },
        };
        let reference: Option<GitReference> = match lookup_key(pairs, &String::from_str("ref")) {
            Some(Doc::Hash(sub)) => {
                if sub.len() == 0 {
                    proof {
                        assert(parse_ref(lookup(gp, "ref"@)) is None);
                    }
                    return Err(Error::Format);
                }
                proof {
                    assert(pairs_view(sub@)[0] == (sub@[0].0@, sub@[0].1@));
                }
                match &sub[0].1 {
                    Doc::Str(v) => match GitReference::new(&sub[0].0, v) {
                        Ok(g) => Some(g),
                        Err(e) => {
                            return Err(e);
                        },
                    },
                    _ => {
                        return Err(Error::Format);
                    },
                }
            },
            Some(_) => None,
            None => None,
        };
        let opt: bool = match lookup_key(pairs, &String::from_str("opt")) {
            Some(Doc::Bool(b)) => *b,
            _ => {
                return Err(Error::Format);
            },
        };
        let category: String = match lookup_key(pairs, &String::from_str("category")) {
            Some(Doc::Str(s)) => s.clone(),
            _ => {
                return Err(Error::Format);
            },
        };
        let load_command: Option<String> = match lookup_key(pairs, &String::from_str("on")) {
            Some(Doc::Str(s)) => Some(s.clone()),
            _ => None,
        };
        let build_command: Option<String> = match lookup_key(pairs, &String::from_str("build")) {
            Some(Doc::Str(s)) => Some(s.clone()),
            _ => None,
        };
        let forv: Option<&Doc> = lookup_key(pairs, &String::from_str("for"));
        let for_types: Vec<String> = match forv {
            Some(y) => match y {
                Doc::Array(items) => {
                    proof {
                        assert(lookup(gp, "for"@) == Some(y@));
                        assert(y@->Array_0 =~~= items_view(items@));
                        assert(lookup(gp, "for"@) matches Some(av) && av =~~= DocV::Array(
                            items_view(items@),
                        ));
                    }
                    let ghost giv = items_view(items@);
                    let mut ts: Vec<String> = Vec::new();
                    let mut i: usize = 0;
                    while i < items.len()
                        invariant
                            i <= items@.len(),
                            ts@.len() == i,
                            giv == items_view(items@),
                            forall|j: int|
                                0 <= j < i ==> giv[j] is Str && ts@[j]@ == giv[j]->Str_0,
                        decreases items@.len() - i,
                    {
                        let it = &items[i];
                        proof {
                            assert(giv[i as int] == yview(items@[i as int]));
                        }
                        match it {
                            Doc::Str(s) => {
                                ts.push(s.clone());
                            },
                            _ => {
                                proof {
                                    assert(!(giv[i as int] is Str));
                                    assert(parse_types(lookup(gp, "for"@)) is None);
                                }
                                return Err(Error::Format);
                            },
                        }
                        i = i + 1;
                    }
                    proof {
                        assert(ts.deep_view() =~= parse_types(lookup(gp, "for"@))->Some_0);
                    }
                    ts
                },
                _ => Vec::new(),
            },
            None => Vec::new(),
        };
        let idname = Package::idname_from_remote(remote.as_str());
        let p = Package {
            name,
            idname,
            remote,
            reference,
            category,
            opt,
            load_command,
            for_types,
            build_command,
        };
        proof {
            if p.for_types@.len() == 0 {
                assert(p.for_types.deep_view() =~= Seq::<Seq<char>>::empty());
            }
            assert(parse_record(doc@) matches Some(v) && p@ =~= v);
        }
        Ok(p)
    }

    /// Writes the record as one entry of the manifest document.
    #[verifier::rlimit(100)]
    #[verifier::spinoff_prover]
    pub fn into_yaml(self) -> (y: Doc)
        ensures
            y@ == record_yaml(self@),
    {
        let ghost gself = self@;
        let mut pairs: Vec<(String, Doc)> = Vec::new();
        pairs.push((String::from_str("name"), Doc::Str(self.name)));
        proof {
            assert(yview(pairs@.last().1) == DocV::Str(gself.name));
        }
        pairs.push((String::from_str("remote"), Doc::Str(self.remote)));
        proof {
            assert(yview(pairs@.last().1) == DocV::Str(gself.remote));
        }
        pairs.push((String::from_str("category"), Doc::Str(self.category)));
        proof {
            assert(yview(pairs@.last().1) == DocV::Str(gself.category));
        }
        pairs.push((String::from_str("opt"), Doc::Bool(self.opt)));
        proof {
            assert(yview(pairs@.last().1) == DocV::Bool(gself.opt));
        }
        match self.reference {
            Some(g) => {
                let ghost gk = g.kind;
                let ghost gv = g.value@;
                let mut sub: Vec<(String, Doc)> = Vec::new();
                let kind = g.kind_name();
                sub.push((kind, Doc::Str(g.value)));
                let ghost gsub = sub@;
                let entry = Doc::Hash(sub);
                proof {
                    assert(gsub.len() == 1);
                    assert(gsub[0].0@ == kind_str(gk));
                    assert(yview(gsub[0].1) == DocV::Str(gv));
                    assert(yview(entry) is Hash);
                    assert(yview(entry)->Hash_0.len() == 1);
                    assert(yview(entry)->Hash_0[0] =~~= (gsub[0].0@, yview(gsub[0].1)));
                    assert(yview(entry)->Hash_0 =~~= seq![(kind_str(gk), DocV::Str(gv))]);
                    assert(yview(entry) =~~= DocV::Hash(seq![(kind_str(gk), DocV::Str(gv))]));
                }
                pairs.push((String::from_str("ref"), entry));
            },
            None => {},
        }
        match self.load_command {
            Some(c) => {
                let ghost gc = c@;
                pairs.push((String::from_str("on"), Doc::Str(c)));
                proof {
                    assert(yview(pairs@.last().1) == DocV::Str(gc));
                }
            },
            None => {},
        }
        match self.build_command {
            Some(c) => {
                let ghost gc = c@;
                pairs.push((String::from_str("build"), Doc::Str(c)));
                proof {
                    assert(yview(pairs@.last().1) == DocV::Str(gc));
                }
            },
            None => {},
        }
        if self.for_types.len() > 0 {
            let mut items: Vec<Doc> = Vec::new();
            let mut i: usize = 0;
            while i < self.for_types.len()
                invariant
                    i <= self.for_types@.len(),
                    items@.len() == i,
                    forall|j: int| 0 <= j < i ==> items@[j]@ == DocV::Str(self.for_types@[j]@),
                decreases self.for_types@.len() - i,
            {
                items.push(Doc::Str(self.for_types[i].clone()));
                i = i + 1;
            }
            let aentry = Doc::Array(items);
            proof {
                assert(yview(aentry)->Array_0 =~~= types_yaml(gself.for_types)->Array_0);
                assert(yview(aentry) =~~= types_yaml(gself.for_types));
            }
            pairs.push((String::from_str("for"), aentry));
        }
        let y = Doc::Hash(pairs);
        proof {
            let ge = record_yaml(gself)->Hash_0;
            assert(pairs@.len() == ge.len());
            assert forall|k: int| 0 <= k < pairs@.len() implies pairs@[k].0@ == ge[k].0 by {
                reveal_with_fuel(yview, 3);
            }
            assert forall|k: int| 0 <= k < pairs@.len() implies yview(pairs@[k].1) == ge[k].1 by {}
            assert(y@->Hash_0 =~~= ge);
            assert(y@ =~~= record_yaml(gself));
        }
        y
    }
}

} // verus!

