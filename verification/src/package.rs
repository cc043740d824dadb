use vstd::prelude::*;

verus! {

/// What a version pin refers to.
#[derive(Debug, Clone, Copy, PartialEq, Eq, Structural)]
pub enum RefKind {
    Branch,
    Tag,
    Commit,
}

/// The manifest key under which a reference kind is stored.
pub open spec fn kind_str(k: RefKind) -> Seq<char> {
    match k {
        RefKind::Branch => "branch"@,
        RefKind::Tag => "tag"@,
        RefKind::Commit => "commit"@,
    }
}

/// Which reference kind a manifest key names, if any.
pub open spec fn parse_kind(s: Seq<char>) -> Option<RefKind> {
    if s == "branch"@ {
        Some(RefKind::Branch)
    } else if s == "tag"@ {
        Some(RefKind::Tag)
    } else if s == "commit"@ {
        Some(RefKind::Commit)
    } else {
        None
    }
}

/// The branch, tag, or commit a package is pinned to.
#[derive(Debug, PartialEq)]
pub struct GitReference {
    pub kind: RefKind,
    pub value: String,
}

impl GitReference {
    /// Builds a reference from a manifest key and value; an unknown kind is
    /// a format error.
    pub fn new(kind: &String, value: &String) -> (r: Result<GitReference, crate::error::Error>)
        ensures
            r is Ok <==> parse_kind(kind@) is Some,
            r matches Ok(g) ==> parse_kind(kind@) == Some(g.kind) && g.value@ == value@,
            r matches Err(e) ==> e == crate::error::Error::Format,
    {
        let k: RefKind = if *kind == String::from_str("branch") {
            RefKind::Branch
        } else if *kind == String::from_str("tag") {
            RefKind::Tag
        } else if *kind == String::from_str("commit") {
            RefKind::Commit
        } else {
            return Err(crate::error::Error::Format);
        };
        Ok(GitReference { kind: k, value: value.clone() })
    }

    /// The manifest key this reference is stored under.
    pub fn kind_name(&self) -> (r: String)
        ensures
            r@ == kind_str(self.kind),
    {
        match self.kind {
            RefKind::Branch => "branch".to_owned(),
            RefKind::Tag => "tag".to_owned(),
            RefKind::Commit => "commit".to_owned(),
        }
    }
}

impl Clone for GitReference {
    fn clone(&self) -> (r: Self)
        ensures
            r == *self,
    {
        GitReference { kind: self.kind, value: self.value.clone() }
    }
}

/// One tracked package: the unit the manifest records.
#[derive(Debug, PartialEq)]
pub struct Package {
    /// Name of the local directory where the plugin is installed; the unique
    /// merge key within the manifest.
    pub name: String,
    /// Canonical identifier derived from the remote (its last two path
    /// segments), used for display.
    pub idname: String,
    /// Remote location the plugin is cloned from.
    pub remote: String,
    /// The branch, tag, or commit to check out; absence tracks the default.
    pub reference: Option<GitReference>,
    /// Logical grouping; decides the install subdirectory.
    pub category: String,
    /// Whether the package loads on demand rather than eagerly.
    pub opt: bool,
    /// Command that, when invoked, loads the package.
    pub load_command: Option<String>,
    /// Context identifiers (file types) that auto-trigger loading.
    pub for_types: Vec<String>,
    /// Post-install shell step, if any.
    pub build_command: Option<String>,
}

/// The mathematical value of a package record: every text field as a
/// sequence of characters.
#[verifier::ext_equal]
pub struct PackageV {
    pub name: Seq<char>,
    pub idname: Seq<char>,
    pub remote: Seq<char>,
    pub reference: Option<(RefKind, Seq<char>)>,
    pub category: Seq<char>,
    pub opt: bool,
    pub load_command: Option<Seq<char>>,
    pub for_types: Seq<Seq<char>>,
    pub build_command: Option<Seq<char>>,
}

/// The view of an optional text field.
pub open spec fn opt_view(o: Option<String>) -> Option<Seq<char>> {
    match o {
        None => None,
        Some(s) => Some(s@),
    }
}

/// The view of an optional reference.
pub open spec fn ref_view(o: Option<GitReference>) -> Option<(RefKind, Seq<char>)> {
    match o {
        None => None,
        Some(g) => Some((g.kind, g.value@)),
    }
}

impl View for Package {
    type V = PackageV;

    open spec fn view(&self) -> PackageV {
        PackageV {
            name: self.name@,
            idname: self.idname@,
            remote: self.remote@,
            reference: ref_view(self.reference),
            category: self.category@,
            opt: self.opt,
            load_command: opt_view(self.load_command),
            for_types: self.for_types.deep_view(),
            build_command: opt_view(self.build_command),
        }
    }
}

impl DeepView for Package {
    type V = PackageV;

    open spec fn deep_view(&self) -> PackageV {
        self.view()
    }
}

/// Index of the last `/` in `s`, or -1 when there is none.
pub open spec fn last_slash(s: Seq<char>) -> int
    decreases s.len(),
{
    if s.len() == 0 {
        -1
    } else if s[s.len() - 1] == '/' {
        s.len() - 1
    } else {
        last_slash(s.drop_last())
    }
}

/// The canonical identifier a remote yields: its last two path segments
/// joined by `/`. A remote with fewer than two segments yields itself;
/// callers must guarantee well-formed remotes for a meaningful result.
pub open spec fn idname_of(s: Seq<char>) -> Seq<char> {
    let p1 = last_slash(s);
    if p1 < 0 {
        s
    } else {
        let p2 = last_slash(s.subrange(0, p1));
        if p2 < 0 {
            s
        } else {
            s.subrange(p2 + 1, s.len() as int)
        }
    }
}

/// The absolute install path of a record: fully determined by the package
/// directory, the category, the load policy, and the name.
pub open spec fn path_of(pack_dir: Seq<char>, category: Seq<char>, opt: bool, name: Seq<char>) -> Seq<char> {
    pack_dir + "/"@ + category + (if opt {
        "/opt/"@
    } else {
        "/start/"@
    }) + name
}

/// Index of the last `/` before `end` in `s`, or `None`.
fn rfind_slash(s: &str, end: usize) -> (r: Option<usize>)
    requires
        end <= s@.len(),
    ensures
        r matches Some(i) ==> i < end && last_slash(s@.subrange(0, end as int)) == i,
        r is None ==> last_slash(s@.subrange(0, end as int)) == -1,
{
    let mut i = end;
    while i > 0
        invariant
            i <= end <= s@.len(),
            last_slash(s@.subrange(0, end as int)) == last_slash(s@.subrange(0, i as int)),
        decreases i,
    {
        if s.get_char(i - 1) == '/' {
            return Some(i - 1);
        }
        proof {
            assert(s@.subrange(0, i as int).drop_last() =~= s@.subrange(0, i as int - 1));
        }
        i = i - 1;
    }
    None
}

impl Package {
    /// Builds a fresh record from a caller's request, deriving the display
    /// identifier from the remote. Trigger metadata starts empty.
    pub fn new(
        name: &str,
        remote: &str,
        reference: Option<GitReference>,
        category: &str,
        opt: bool,
    ) -> (p: Package)
        ensures
            p@ == (PackageV {
                name: name@,
                idname: idname_of(remote@),
                remote: remote@,
                reference: ref_view(reference),
                category: category@,
                opt: opt,
                load_command: None,
                for_types: Seq::<Seq<char>>::empty(),
                build_command: None,
            }),
    {
        let p = Package {
            name: name.to_owned(),
            idname: Self::idname_from_remote(remote),
            remote: remote.to_owned(),
            reference,
            category: category.to_owned(),
            opt,
            load_command: None,
            for_types: Vec::new(),
            build_command: None,
        };
        proof {
            assert(p.for_types.deep_view() =~= Seq::<Seq<char>>::empty());
        }
        p
    }

    /// The last two path segments of a remote, joined by `/`.
    pub fn idname_from_remote(remote: &str) -> (r: String)
        ensures
            r@ == idname_of(remote@),
    {
        let n = remote.unicode_len();
        proof {
            assert(remote@.subrange(0, n as int) =~= remote@);
        }
        match rfind_slash(remote, n) {
            None => remote.to_owned(),
            Some(p1) => match rfind_slash(remote, p1) {
                None => remote.to_owned(),
                Some(p2) => remote.substring_char(p2 + 1, n).to_owned(),
            },
        }
    }

    /// Whether the computed install path exists as a directory. The on-disk
    /// state is the authoritative truth of installation, so the result
    /// carries no contract: callers treat either answer as possible.
    pub fn is_installed(&self, pack_dir: &str) -> bool {
        let p = self.path(pack_dir);
        path_is_dir(&p)
    }

    pub fn set_category(&mut self, cat: &str)
        ensures
            *final(self) == (Package { category: final(self).category, ..*old(self) }),
            final(self).category@ == cat@,
    {
        self.category = cat.to_owned();
    }

    /// Sets whether the package is installed under `opt` rather than `start`.
    pub fn set_opt(&mut self, opt: bool)
        ensures
            *final(self) == (Package { opt, ..*old(self) }),
    {
        self.opt = opt;
    }

    /// Sets the file types the package is loaded for.
    pub fn set_types(&mut self, types: Vec<String>)
        ensures
            *final(self) == (Package { for_types: types, ..*old(self) }),
    {
        self.for_types = types;
    }

    /// The directory where the plugin is (or would be) installed, under the
    /// given package directory.
    pub fn path(&self, pack_dir: &str) -> (r: String)
        ensures
            r@ == path_of(pack_dir@, self.category@, self.opt, self.name@),
    {
        let mut r = pack_dir.to_owned();
        r.append("/");
        r.append(self.category.as_str());
        if self.opt {
            r.append("/opt/");
        } else {
            r.append("/start/");
        }
        r.append(self.name.as_str());
        r
    }
}

/// The one-line description of a record: its canonical identifier, its
/// placement, and its triggers.
pub open spec fn describe_spec(p: PackageV) -> Seq<char> {
    let on = match p.load_command {
        Some(c) => " [Load on `"@ + c + "`]"@,
        None => Seq::<char>::empty(),
    };
    let types = if p.for_types.len() > 0 {
        " [For "@ + join_commas(p.for_types) + "]"@
    } else {
        Seq::<char>::empty()
    };
    p.idname + " => pack/"@ + p.category + (if p.opt {
        "/opt"@
    } else {
        "/start"@
    }) + on + types
}

impl Package {
    /// Renders the record for display, placement and triggers included.
    pub fn describe(&self) -> (r: String)
        ensures
            r@ == describe_spec(self@),
    {
        let mut r = self.idname.clone();
        r.append(" => pack/");
        r.append(self.category.as_str());
        if self.opt {
            r.append("/opt");
        } else {
            r.append("/start");
        }
        match &self.load_command {
            Some(c) => {
                r.append(" [Load on `");
                r.append(c.as_str());
                r.append("`]");
            },
            None => {},
        }
        if self.for_types.len() > 0 {
            r.append(" [For ");
            let joined = join_types(&self.for_types);
            r.append(joined.as_str());
            r.append("]");
        }
        proof {
            assert(r@ =~= describe_spec(self@));
        }
        r
    }
}

impl Clone for Package {
    fn clone(&self) -> (r: Self)
        ensures
            r@ == self@,
    {
        Package {
            name: self.name.clone(),
            idname: self.idname.clone(),
            remote: self.remote.clone(),
            reference: clone_opt_ref(&self.reference),
            category: self.category.clone(),
            opt: self.opt,
            load_command: clone_opt_string(&self.load_command),
            for_types: clone_vec_string(&self.for_types),
            build_command: clone_opt_string(&self.build_command),
        }
    }
}

pub(crate) fn clone_opt_string(o: &Option<String>) -> (r: Option<String>)
    ensures
        r == *o,
{
    match o {
        None => None,
        Some(s) => Some(s.clone()),
    }
}

fn clone_opt_ref(o: &Option<GitReference>) -> (r: Option<GitReference>)
    ensures
        r == *o,
{
    match o {
        None => None,
        Some(g) => Some(g.clone()),
    }
}

pub(crate) fn clone_vec_string(v: &Vec<String>) -> (r: Vec<String>)
    ensures
        r.deep_view() == v.deep_view(),
{
    let mut r: Vec<String> = Vec::new();
    let mut i: usize = 0;
    while i < v.len()
        invariant
            i <= v.len(),
            r@.len() == i,
            forall|j: int| 0 <= j < i ==> r@[j]@ == v@[j]@,
        decreases v.len() - i,
    {
        r.push(v[i].clone());
        i = i + 1;
    }
    proof {
        assert(r.deep_view() =~= v.deep_view());
    }
    r
}

/// Relies on std::path::Path::is_dir: whether the path names an existing
/// directory on disk. The result depends on the filesystem, so nothing is
/// promised of it.
#[verifier::external_body]
fn path_is_dir(p: &String) -> bool {
    std::path::Path::new(p.as_str()).is_dir()
}

/// A type list joined with commas, as the auto-load rule writes it.
pub open spec fn join_commas(ts: Seq<Seq<char>>) -> Seq<char> {
    if ts.len() == 0 {
        Seq::empty()
    } else {
        ts[0] + rest_commas(ts.drop_first())
    }
}

pub open spec fn rest_commas(ts: Seq<Seq<char>>) -> Seq<char>
    decreases ts.len(),
{
    if ts.len() == 0 {
        Seq::empty()
    } else {
        ","@ + ts[0] + rest_commas(ts.drop_first())
    }
}

pub(crate) fn join_types(ts: &Vec<String>) -> (r: String)
    ensures
        r@ == join_commas(ts.deep_view()),
{
    let ghost gt = ts.deep_view();
    let mut r = String::new();
    if ts.len() == 0 {
        return r;
    }
    r.append(ts[0].as_str());
    let mut i: usize = 1;
    proof {
        assert(gt.skip(1)[0] == gt[1] || gt.len() <= 1);
        assert(r@ + rest_commas(gt.skip(1)) == join_commas(gt) || gt.len() <= 1);
    }
    while i < ts.len()
        invariant
            1 <= i <= ts@.len(),
            gt == ts.deep_view(),
            gt.len() > 0,
            r@ + rest_commas(gt.skip(i as int)) == join_commas(gt),
        decreases ts@.len() - i,
    {
        proof {
            assert(gt.skip(i as int)[0] == gt[i as int]);
            assert(gt.skip(i as int).drop_first() =~= gt.skip(i + 1));
        }
        r.append(",");
        r.append(ts[i].as_str());
        i = i + 1;
    }
    proof {
        assert(gt.skip(i as int) =~= Seq::<Seq<char>>::empty());
        assert(r@ + Seq::<char>::empty() =~= r@);
    }
    r
}

/// A directory name the walk skips: hidden entries.
pub open spec fn hidden(n: Seq<char>) -> bool {
    n.len() > 0 && n[0] == '.'
}

/// Whether an option directory is visited under the given flags: it must
/// be `start` or `opt`, and each flag pins it to that one.
pub open spec fn option_kept(o: Seq<char>, start: bool, opt: bool) -> bool {
    &&& !(start && o != "start"@)
    &&& !(opt && o != "opt"@)
    &&& (o == "start"@ || o == "opt"@)
}

/// The packages listed under one option directory, hidden names skipped.
pub open spec fn walk_names(c: Seq<char>, o: Seq<char>, names: Seq<Seq<char>>) -> Seq<
    (Seq<char>, Seq<char>, Seq<char>),
>
    decreases names.len(),
{
    if names.len() == 0 {
        Seq::empty()
    } else if hidden(names[0]) {
        walk_names(c, o, names.drop_first())
    } else {
        seq![(c, o, names[0])] + walk_names(c, o, names.drop_first())
    }
}

/// The packages under one category, option directories filtered.
pub open spec fn walk_options(
    c: Seq<char>,
    opts: Seq<(Seq<char>, Seq<Seq<char>>)>,
    start: bool,
    opt: bool,
) -> Seq<(Seq<char>, Seq<char>, Seq<char>)>
    decreases opts.len(),
{
    if opts.len() == 0 {
        Seq::empty()
    } else if option_kept(opts[0].0, start, opt) {
        walk_names(c, opts[0].0, opts[0].1) + walk_options(c, opts.drop_first(), start, opt)
    } else {
        walk_options(c, opts.drop_first(), start, opt)
    }
}

/// The packages of the whole tree, categories filtered by name and
/// hidden categories skipped.
pub open spec fn walk_spec(
    tree: Seq<(Seq<char>, Seq<(Seq<char>, Seq<Seq<char>>)>)>,
    category: Option<Seq<char>>,
    start: bool,
    opt: bool,
) -> Seq<(Seq<char>, Seq<char>, Seq<char>)>
    decreases tree.len(),
{
    if tree.len() == 0 {
        Seq::empty()
    } else if !hidden(tree[0].0) && (category is None || category == Some(tree[0].0)) {
        walk_options(tree[0].0, tree[0].1, start, opt) + walk_spec(
            tree.drop_first(),
            category,
            start,
            opt,
        )
    } else {
        walk_spec(tree.drop_first(), category, start, opt)
    }
}

fn is_hidden(n: &String) -> (r: bool)
    ensures
        r == hidden(n@),
{
    n.unicode_len() > 0 && n.as_str().get_char(0) == '.'
}

#[verifier::loop_isolation(false)]
fn walk_one_option(c: &String, o: &String, names: &Vec<String>) -> (r: Vec<(String, String, String)>)
    ensures
        r.deep_view() == walk_names(c@, o@, names.deep_view()),
{
    let ghost gn = names.deep_view();
    let mut r: Vec<(String, String, String)> = Vec::new();
    let mut i: usize = 0;
    proof {
        assert(gn.skip(0) =~= gn);
        assert(r.deep_view() =~= Seq::<(Seq<char>, Seq<char>, Seq<char>)>::empty());
        assert(Seq::<(Seq<char>, Seq<char>, Seq<char>)>::empty() + walk_names(c@, o@, gn)
            =~= walk_names(c@, o@, gn));
    }
    while i < names.len()
        invariant
            i <= names@.len(),
            gn == names.deep_view(),
            r.deep_view() + walk_names(c@, o@, gn.skip(i as int)) == walk_names(c@, o@, gn),
        decreases names@.len() - i,
    {
        let ghost gr = r.deep_view();
        if !is_hidden(&names[i]) {
            r.push((c.clone(), o.clone(), names[i].clone()));
            proof {
                assert(r.deep_view() =~= gr.push((c@, o@, gn[i as int])));
            }
        }
        proof {
            assert(gn.skip(i as int)[0] == gn[i as int]);
            assert(gn.skip(i as int).drop_first() =~= gn.skip(i + 1));
            if !hidden(gn[i as int]) {
                assert(gr.push((c@, o@, gn[i as int])) + walk_names(c@, o@, gn.skip(i + 1)) =~= gr
                    + (seq![(c@, o@, gn[i as int])] + walk_names(c@, o@, gn.skip(i + 1))));
            }
        }
        i = i + 1;
    }
    proof {
        assert(gn.skip(i as int) =~= Seq::<Seq<char>>::empty());
        assert(r.deep_view() + Seq::<(Seq<char>, Seq<char>, Seq<char>)>::empty() =~= r.deep_view());
    }
    r
}

fn push_all(acc: &mut Vec<(String, String, String)>, part: Vec<(String, String, String)>)
    ensures
        final(acc).deep_view() == old(acc).deep_view() + part.deep_view(),
{
    let ghost g0 = acc.deep_view();
    let ghost gp = part.deep_view();
    let mut part = part;
    let mut i: usize = 0;
    proof {
        assert(g0 + gp.take(0) =~= g0);
    }
    while i < part.len()
        invariant
            i <= part@.len(),
            gp == part.deep_view(),
            acc.deep_view() == g0 + gp.take(i as int),
        decreases part@.len() - i,
    {
        let ghost ga = acc.deep_view();
        let item = (part[i].0.clone(), part[i].1.clone(), part[i].2.clone());
        acc.push(item);
        proof {
            assert(acc.deep_view() =~= ga.push(gp[i as int]));
            assert(ga.push(gp[i as int]) =~= g0 + gp.take(i + 1));
        }
        i = i + 1;
    }
    proof {
        assert(gp.take(i as int) =~= gp);
    }
}

/// Lists the installed packages of the package tree as (category, option,
/// name) triples: hidden entries are skipped, the category filter pins one
/// category, and the `start` and `opt` flags each pin the option
/// directory. The caller supplies the on-disk listing; this decides what
/// counts.
#[verifier::loop_isolation(false)]
pub fn walk_packs(
    tree: &Vec<(String, Vec<(String, Vec<String>)>)>,
    category: &Option<String>,
    start: bool,
    opt: bool,
) -> (r: Vec<(String, String, String)>)
    ensures
        r.deep_view() == walk_spec(tree.deep_view(), opt_view(*category), start, opt),
{
    let ghost gt = tree.deep_view();
    let ghost gc = opt_view(*category);
    let mut r: Vec<(String, String, String)> = Vec::new();
    let mut i: usize = 0;
    proof {
        assert(gt.skip(0) =~= gt);
        assert(r.deep_view() =~= Seq::<(Seq<char>, Seq<char>, Seq<char>)>::empty());
        assert(Seq::<(Seq<char>, Seq<char>, Seq<char>)>::empty() + walk_spec(gt, gc, start, opt)
            =~= walk_spec(gt, gc, start, opt));
    }
    while i < tree.len()
        invariant
            i <= tree@.len(),
            gt == tree.deep_view(),
            gc == opt_view(*category),
            r.deep_view() + walk_spec(gt.skip(i as int), gc, start, opt) == walk_spec(
                gt,
                gc,
                start,
                opt,
            ),
        decreases tree@.len() - i,
    {
        let ghost gr = r.deep_view();
        proof {
            assert(gt[i as int] == (tree@[i as int].0@, tree@[i as int].1.deep_view()));
        }
        let cate = &tree[i].0;
        let keep_cate: bool = if is_hidden(cate) {
            false
        } else {
            match category {
                None => true,
                Some(c) => *cate == *c,
            }
        };
        if keep_cate {
            let opts = &tree[i].1;
            let ghost go = opts.deep_view();
            let mut j: usize = 0;
            proof {
                assert(go.skip(0) =~= go);
                assert(gr + (Seq::<(Seq<char>, Seq<char>, Seq<char>)>::empty() + walk_spec(
                    gt.skip(i + 1),
                    gc,
                    start,
                    opt,
                )) =~= gr + walk_spec(gt.skip(i + 1), gc, start, opt));
                assert(gt.skip(i as int)[0] == gt[i as int]);
                assert(gt.skip(i as int).drop_first() =~= gt.skip(i + 1));
            }
            while j < opts.len()
                invariant
                    j <= opts@.len(),
                    go == opts.deep_view(),
                    gt == tree.deep_view(),
                    gc == opt_view(*category),
                    i < tree@.len(),
                    r.deep_view() + (walk_options(gt[i as int].0, go.skip(j as int), start, opt)
                        + walk_spec(gt.skip(i + 1), gc, start, opt)) == walk_spec(
                        gt,
                        gc,
                        start,
                        opt,
                    ),
                decreases opts@.len() - j,
            {
                let ghost gr2 = r.deep_view();
                proof {
                    assert(go[j as int] == (opts@[j as int].0@, opts@[j as int].1.deep_view()));
                    assert(go.skip(j as int)[0] == go[j as int]);
                    assert(go.skip(j as int).drop_first() =~= go.skip(j + 1));
                }
                let o = &opts[j].0;
                let keep_o: bool = !(start && !(*o == String::from_str("start"))) && !(opt && !(*o
                    == String::from_str("opt"))) && (*o == String::from_str("start") || *o
                    == String::from_str("opt"));
                if keep_o {
                    let part = walk_one_option(cate, o, &opts[j].1);
                    let ghost gpart = part.deep_view();
                    push_all(&mut r, part);
                    proof {
                        assert(r.deep_view() + (walk_options(
                            gt[i as int].0,
                            go.skip(j + 1),
                            start,
                            opt,
                        ) + walk_spec(gt.skip(i + 1), gc, start, opt)) =~= gr2 + ((gpart
                            + walk_options(gt[i as int].0, go.skip(j + 1), start, opt)) + walk_spec(
                            gt.skip(i + 1),
                            gc,
                            start,
                            opt,
                        )));
                    }
                }
                j = j + 1;
            }
            proof {
                assert(go.skip(j as int) =~= Seq::<(Seq<char>, Seq<Seq<char>>)>::empty());
            }
        } else {
            proof {
                assert(gt.skip(i as int)[0] == gt[i as int]);
                assert(gt.skip(i as int).drop_first() =~= gt.skip(i + 1));
            }
        }
        i = i + 1;
    }
    proof {
        assert(gt.skip(i as int) =~= Seq::<(Seq<char>, Seq<(Seq<char>, Seq<Seq<char>>)>)>::empty());
        assert(r.deep_view() + Seq::<(Seq<char>, Seq<char>, Seq<char>)>::empty() =~= r.deep_view());
    }
    r
}

} // verus!
