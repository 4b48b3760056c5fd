//! What the library reads of file paths.

use vstd::prelude::*;

verus! {

/// What `Path::extension` gives for a path written as text: the part of the file name
/// after its last `.`, if any.
pub uninterp spec fn std_path_extension(path: Seq<char>) -> Option<Seq<char>>;

/// Calls `std::path::Path::extension` on `path` and returns the extension as text.
/// Claimed: the result is a function of the path's text alone, under the path syntax of
/// the platform the library is built for (Unix and Windows paths split differently). The
/// extension of a path that is valid UTF-8 is valid UTF-8, so no extension is lost in the
/// conversion.
#[verifier::external_body]
pub(crate) fn path_extension(path: &str) -> (r: Option<String>)
    ensures
        match std_path_extension(path@) {
            Some(e) => r matches Some(s) && s@ == e,
            None => r is None,
        },
{
    std::path::Path::new(path).extension().and_then(|e| e.to_str()).map(|e| e.to_owned())
}

} // verus!

verus! {

/// A Windows path prefix as `std::path::Prefix` parses it, with its texts and drive
/// letters. The variants stand in the order in which `Prefix` orders them; two prefixes
/// that parse alike (`c:` and `C:`, both the drive `C`) are the same prefix.
#[derive(Debug)]
pub enum PathPrefix {
    Verbatim(String),
    VerbatimUNC(String, String),
    VerbatimDisk(u8),
    DeviceNS(String),
    UNC(String, String),
    Disk(u8),
}

/// The mathematical value of a [`PathPrefix`].
pub enum PathPrefixView {
    Verbatim(Seq<char>),
    VerbatimUNC(Seq<char>, Seq<char>),
    VerbatimDisk(u8),
    DeviceNS(Seq<char>),
    UNC(Seq<char>, Seq<char>),
    Disk(u8),
}

impl View for PathPrefix {
    type V = PathPrefixView;

    open spec fn view(&self) -> PathPrefixView {
        match self {
            PathPrefix::Verbatim(s) => PathPrefixView::Verbatim(s@),
            PathPrefix::VerbatimUNC(a, b) => PathPrefixView::VerbatimUNC(a@, b@),
            PathPrefix::VerbatimDisk(d) => PathPrefixView::VerbatimDisk(*d),
            PathPrefix::DeviceNS(s) => PathPrefixView::DeviceNS(s@),
            PathPrefix::UNC(a, b) => PathPrefixView::UNC(a@, b@),
            PathPrefix::Disk(d) => PathPrefixView::Disk(*d),
        }
    }
}

/// One component of a path, as `std::path::Component` names them, with the parsed prefix
/// or the text of the components that carry one. The variants stand in the order in which
/// `Component` orders them.
#[derive(Debug)]
pub enum PathComponent {
    Prefix(PathPrefix),
    RootDir,
    CurDir,
    ParentDir,
    Normal(String),
}

/// A path: its text, and its components as `Path::components` gives them.
#[derive(Debug)]
pub struct FsPath {
    pub text: String,
    pub components: Vec<PathComponent>,
}

/// The mathematical value of a [`PathComponent`].
pub enum PathComponentView {
    Prefix(PathPrefixView),
    RootDir,
    CurDir,
    ParentDir,
    Normal(Seq<char>),
}

/// The mathematical value of an [`FsPath`].
pub struct FsPathView {
    pub text: Seq<char>,
    pub components: Seq<PathComponentView>,
}

impl View for PathComponent {
    type V = PathComponentView;

    open spec fn view(&self) -> PathComponentView {
        match self {
            PathComponent::Prefix(p) => PathComponentView::Prefix(p@),
            PathComponent::RootDir => PathComponentView::RootDir,
            PathComponent::CurDir => PathComponentView::CurDir,
            PathComponent::ParentDir => PathComponentView::ParentDir,
            PathComponent::Normal(s) => PathComponentView::Normal(s@),
        }
    }
}

impl View for FsPath {
    type V = FsPathView;

    open spec fn view(&self) -> FsPathView {
        FsPathView {
            text: self.text@,
            components: self.components@.map_values(|c: PathComponent| c@),
        }
    }
}

/// Lexicographic order on keys: a proper prefix comes first.
pub open spec fn key_lt(a: Seq<int>, b: Seq<int>) -> bool
    decreases a.len(),
{
    if b.len() == 0 {
        false
    } else if a.len() == 0 {
        true
    } else if a[0] != b[0] {
        a[0] < b[0]
    } else {
        key_lt(a.drop_first(), b.drop_first())
    }
}

pub proof fn lemma_key_lt_irreflexive(a: Seq<int>)
    ensures
        !key_lt(a, a),
    decreases a.len(),
{
    if a.len() > 0 {
        lemma_key_lt_irreflexive(a.drop_first());
    }
}

pub proof fn lemma_key_lt_transitive(a: Seq<int>, b: Seq<int>, c: Seq<int>)
    requires
        key_lt(a, b),
        key_lt(b, c),
    ensures
        key_lt(a, c),
    decreases a.len(),
{
    if a.len() > 0 && b.len() > 0 && c.len() > 0 && a[0] == b[0] && b[0] == c[0] {
        lemma_key_lt_transitive(a.drop_first(), b.drop_first(), c.drop_first());
    }
}

pub proof fn lemma_key_lt_total(a: Seq<int>, b: Seq<int>)
    ensures
        a == b || key_lt(a, b) || key_lt(b, a),
    decreases a.len(),
{
    if a.len() > 0 && b.len() > 0 && a[0] == b[0] {
        lemma_key_lt_total(a.drop_first(), b.drop_first());
        if a.drop_first() == b.drop_first() {
            assert(a =~= seq![a[0]] + a.drop_first());
            assert(b =~= seq![b[0]] + b.drop_first());
        }
    } else if a.len() == 0 && b.len() == 0 {
        assert(a =~= b);
    }
}

pub proof fn lemma_key_lt_asymmetric(a: Seq<int>, b: Seq<int>)
    requires
        key_lt(a, b),
    ensures
        !key_lt(b, a),
{
    if key_lt(b, a) {
        lemma_key_lt_transitive(a, b, a);
        lemma_key_lt_irreflexive(a);
    }
}

/// The key of a text: its UTF-8 bytes, each moved up by one so that 0 can end the text.
pub open spec fn text_key(s: Seq<char>) -> Seq<int> {
    vstd::utf8::encode_utf8(s).map_values(|b: u8| b as int + 1) + seq![0int]
}

/// The key of a parsed prefix: its rank among the variants of `Prefix`, then its fields
/// in order (a drive letter as one number).
pub open spec fn prefix_key(p: PathPrefixView) -> Seq<int> {
    match p {
        PathPrefixView::Verbatim(s) => seq![1int] + text_key(s),
        PathPrefixView::VerbatimUNC(a, b) => seq![2int] + text_key(a) + text_key(b),
        PathPrefixView::VerbatimDisk(d) => seq![3int, d as int],
        PathPrefixView::DeviceNS(s) => seq![4int] + text_key(s),
        PathPrefixView::UNC(a, b) => seq![5int] + text_key(a) + text_key(b),
        PathPrefixView::Disk(d) => seq![6int, d as int],
    }
}

/// The key of a component: its rank among the variants of `Component`, then its parsed
/// prefix or its text.
pub open spec fn component_key(c: PathComponentView) -> Seq<int> {
    match c {
        PathComponentView::Prefix(p) => seq![1int] + prefix_key(p),
        PathComponentView::RootDir => seq![2int],
        PathComponentView::CurDir => seq![3int],
        PathComponentView::ParentDir => seq![4int],
        PathComponentView::Normal(s) => seq![5int] + text_key(s),
    }
}

/// The key of a path: the keys of its components one after the other. Two paths compare
/// as their keys do under [`key_lt`], which is the order of `Path` on components.
pub open spec fn path_key(cs: Seq<PathComponentView>) -> Seq<int>
    decreases cs.len(),
{
    if cs.len() == 0 {
        seq![]
    } else {
        path_key(cs.drop_last()) + component_key(cs.last())
    }
}

pub open spec fn key_view(k: Seq<u16>) -> Seq<int> {
    k.map_values(|x: u16| x as int)
}

fn push_text_key(key: &mut Vec<u16>, s: &str)
    ensures
        key_view(final(key)@) == key_view(old(key)@) + text_key(s@),
{
    let bytes = s.as_bytes();
    let ghost start = key_view(key@);
    let mut i: usize = 0;
    while i < bytes.len()
        invariant
            i <= bytes@.len(),
            bytes@ == vstd::utf8::encode_utf8(s@),
            key_view(key@) =~= start + bytes@.take(i as int).map_values(|b: u8| b as int + 1),
        decreases bytes@.len() - i,
    {
        let b = bytes[i];
        let ghost prev = key@;
        key.push(b as u16 + 1);
        proof {
            assert(key_view(key@) =~= key_view(prev).push(b as int + 1));
            assert(bytes@.take(i + 1) =~= bytes@.take(i as int).push(b));
            assert(bytes@.take(i + 1).map_values(|b: u8| b as int + 1) =~= bytes@.take(i as int).map_values(
                |b: u8| b as int + 1,
            ).push(b as int + 1));
        }
        i = i + 1;
    }
    let ghost prev = key@;
    key.push(0);
    proof {
        assert(key_view(key@) =~= key_view(prev).push(0int));
        assert(bytes@.take(bytes@.len() as int) =~= bytes@);
        assert(key_view(key@) =~= start + text_key(s@));
    }
}

fn push_prefix_key(key: &mut Vec<u16>, p: &PathPrefix)
    ensures
        key_view(final(key)@) == key_view(old(key)@) + prefix_key(p@),
{
    let ghost start = key_view(key@);
    match p {
        PathPrefix::Verbatim(s) => {
            key.push(1);
            push_text_key(key, s.as_str());
        },
        PathPrefix::VerbatimUNC(a, b) => {
            key.push(2);
            push_text_key(key, a.as_str());
            push_text_key(key, b.as_str());
        },
        PathPrefix::VerbatimDisk(d) => {
            key.push(3);
            key.push(*d as u16);
        },
        PathPrefix::DeviceNS(s) => {
            key.push(4);
            push_text_key(key, s.as_str());
        },
        PathPrefix::UNC(a, b) => {
            key.push(5);
            push_text_key(key, a.as_str());
            push_text_key(key, b.as_str());
        },
        PathPrefix::Disk(d) => {
            key.push(6);
            key.push(*d as u16);
        },
    }
    assert(key_view(key@) =~= start + prefix_key(p@));
}

/// The key of a path's components.
pub fn path_key_of(cs: &Vec<PathComponent>) -> (r: Vec<u16>)
    ensures
        key_view(r@) == path_key(cs@.map_values(|c: PathComponent| c@)),
{
    let ghost views = cs@.map_values(|c: PathComponent| c@);
    let mut key: Vec<u16> = Vec::new();
    let mut i: usize = 0;
    while i < cs.len()
        invariant
            i <= cs@.len(),
            views == cs@.map_values(|c: PathComponent| c@),
            key_view(key@) == path_key(views.take(i as int)),
        decreases cs@.len() - i,
    {
        let ghost before = key_view(key@);
        match &cs[i] {
            PathComponent::Prefix(p) => {
                key.push(1);
                push_prefix_key(&mut key, p);
            },
            PathComponent::RootDir => { key.push(2); },
            PathComponent::CurDir => { key.push(3); },
            PathComponent::ParentDir => { key.push(4); },
            PathComponent::Normal(s) => {
                key.push(5);
                push_text_key(&mut key, s.as_str());
            },
        }
        proof {
            assert(views.take(i + 1).drop_last() =~= views.take(i as int));
            assert(key_view(key@) =~= before + component_key(views[i as int]));
        }
        i = i + 1;
    }
    assert(views.take(cs@.len() as int) =~= views);
    key
}

/// Whether key `a` comes before key `b`.
pub fn key_less(a: &Vec<u16>, b: &Vec<u16>) -> (r: bool)
    ensures
        r == key_lt(key_view(a@), key_view(b@)),
{
    let ghost ka = key_view(a@);
    let ghost kb = key_view(b@);
    let mut i: usize = 0;
    assert(ka.skip(0) =~= ka);
    assert(kb.skip(0) =~= kb);
    while i < a.len() && i < b.len() && a[i] == b[i]
        invariant
            i <= a@.len(),
            i <= b@.len(),
            ka == key_view(a@),
            kb == key_view(b@),
            key_lt(ka, kb) == key_lt(ka.skip(i as int), kb.skip(i as int)),
        decreases a@.len() - i,
    {
        proof {
            assert(ka.skip(i as int).drop_first() =~= ka.skip(i + 1));
            assert(kb.skip(i as int).drop_first() =~= kb.skip(i + 1));
        }
        i = i + 1;
    }
    proof {
        if i < a@.len() {
            assert(ka.skip(i as int)[0] == ka[i as int]);
        }
        if i < b@.len() {
            assert(kb.skip(i as int)[0] == kb[i as int]);
        }
    }
    if i < a.len() && i < b.len() {
        a[i] < b[i]
    } else {
        i < b.len()
    }
}

} // verus!

verus! {

/// What a path given to the file collector turned out to be: a file, a directory with the
/// files found under it, or nothing.
#[derive(Debug)]
pub enum PathInput {
    File(FsPath),
    Dir(Vec<FsPath>),
    Missing(String),
}

/// The mathematical value of a [`PathInput`].
pub enum PathInputView {
    File(FsPathView),
    Dir(Seq<FsPathView>),
    Missing(Seq<char>),
}

impl View for PathInput {
    type V = PathInputView;

    open spec fn view(&self) -> PathInputView {
        match self {
            PathInput::File(p) => PathInputView::File(p@),
            PathInput::Dir(ps) => PathInputView::Dir(ps@.map_values(|p: FsPath| p@)),
            PathInput::Missing(s) => PathInputView::Missing(s@),
        }
    }
}

/// Why the file collector failed.
#[derive(Debug)]
pub enum CollectError {
    /// A given path is neither a file nor a directory.
    PathNotFound(String),
}

impl CollectError {
    /// The error as a sentence for the user.
    pub fn message(&self) -> (r: String)
        ensures
            match self {
                CollectError::PathNotFound(p) => r@ == "path not found: "@ + p@,
            },
    {
        match self {
            CollectError::PathNotFound(p) => crate::text::concat("path not found: ", p.as_str()),
        }
    }
}

/// Whether a path names an `.sql` file: its extension is exactly `sql`.
pub open spec fn is_sql_path(text: Seq<char>) -> bool {
    std_path_extension(text) == Some("sql"@)
}

/// The `.sql` files among some paths, in their order.
pub open spec fn sql_paths(ps: Seq<FsPathView>) -> Seq<FsPathView>
    decreases ps.len(),
{
    if ps.len() == 0 {
        seq![]
    } else if is_sql_path(ps.last().text) {
        sql_paths(ps.drop_last()).push(ps.last())
    } else {
        sql_paths(ps.drop_last())
    }
}

/// The `.sql` files that one given path contributes.
pub open spec fn input_sql_files(inp: PathInputView) -> Seq<FsPathView> {
    match inp {
        PathInputView::File(p) => if is_sql_path(p.text) {
            seq![p]
        } else {
            seq![]
        },
        PathInputView::Dir(ps) => sql_paths(ps),
        PathInputView::Missing(_) => seq![],
    }
}

/// The `.sql` files of the given paths in their order, or the first path that is missing.
pub open spec fn selected_sql_files(inputs: Seq<PathInputView>) -> Result<Seq<FsPathView>, Seq<char>>
    decreases inputs.len(),
{
    if inputs.len() == 0 {
        Ok(seq![])
    } else {
        match selected_sql_files(inputs.drop_last()) {
            Err(m) => Err(m),
            Ok(sel) => match inputs.last() {
                PathInputView::Missing(p) => Err(p),
                other => Ok(sel + input_sql_files(other)),
            },
        }
    }
}

/// The key under which a selected file is ordered.
pub open spec fn file_key(p: FsPathView) -> Seq<int> {
    path_key(p.components)
}

/// `j` is the first of the selected files with its key.
pub open spec fn first_of_key(sel: Seq<FsPathView>, j: int) -> bool {
    &&& 0 <= j < sel.len()
    &&& forall|k: int| 0 <= k < j ==> file_key(#[trigger] sel[k]) != file_key(sel[j])
}

/// The key of the selected file `j` is that of a kept file.
pub open spec fn key_kept(sel: Seq<FsPathView>, n: int, idx: Seq<int>, j: int) -> bool {
    exists|i: int| #![trigger idx[i]] 0 <= i < n && same_key(file_key(sel[idx[i]]), file_key(sel[j]))
}

/// `out` lists, by the indices `idx`, the first file of each key among `sel`, in the order
/// of the keys.
pub open spec fn sorted_dedup_witness(sel: Seq<FsPathView>, out: Seq<Seq<char>>, idx: Seq<int>) -> bool {
    &&& idx.len() == out.len()
    &&& forall|i: int| 0 <= i < out.len() ==> first_of_key(sel, #[trigger] idx[i]) && out[i] == sel[idx[i]].text
    &&& forall|i: int, j: int| 0 <= i < j < out.len() ==> key_lt(file_key(sel[#[trigger] idx[i]]), file_key(sel[#[trigger] idx[j]]))
    &&& forall|j: int| 0 <= j < sel.len() ==> #[trigger] key_kept(sel, out.len() as int, idx, j)
}

/// `out` is `sel` sorted by path and with repeated paths dropped, the first of each kept.
pub open spec fn is_sorted_dedup(sel: Seq<FsPathView>, out: Seq<Seq<char>>) -> bool {
    exists|idx: Seq<int>| sorted_dedup_witness(sel, out, idx)
}

} // verus!

verus! {

/// The texts `t` and keys `k` are those of the files `cur`, in order.
pub open spec fn lists_files(t: Seq<String>, k: Seq<Vec<u16>>, cur: Seq<FsPathView>) -> bool {
    &&& t.len() == cur.len()
    &&& k.len() == cur.len()
    &&& forall|j: int| 0 <= j < cur.len() ==> (#[trigger] t[j])@ == cur[j].text
    &&& forall|j: int| 0 <= j < cur.len() ==> key_view((#[trigger] k[j])@) == file_key(cur[j])
}

/// Whether `text` names an `.sql` file.
pub fn is_sql_file(text: &str) -> (r: bool)
    ensures
        r == is_sql_path(text@),
{
    match path_extension(text) {
        Some(e) => crate::text::str_eq(e.as_str(), "sql"),
        None => false,
    }
}

fn push_file(t: &mut Vec<String>, k: &mut Vec<Vec<u16>>, p: &FsPath, Ghost(cur): Ghost<Seq<FsPathView>>)
    requires
        lists_files(old(t)@, old(k)@, cur),
    ensures
        lists_files(final(t)@, final(k)@, cur.push(p@)),
{
    let key = path_key_of(&p.components);
    t.push(p.text.clone());
    k.push(key);
    assert(lists_files(t@, k@, cur.push(p@))) by {
        assert forall|j: int| 0 <= j < cur.len() + 1 implies (#[trigger] t@[j])@ == cur.push(p@)[j].text by {
            if j < cur.len() {
                assert(t@[j] == old(t)@[j]);
            }
        }
        assert forall|j: int| 0 <= j < cur.len() + 1 implies key_view((#[trigger] k@[j])@) == file_key(cur.push(p@)[j]) by {
            if j < cur.len() {
                assert(k@[j] == old(k)@[j]);
            }
        }
    }
}

proof fn lemma_selected_err_sticks(inputs: Seq<PathInputView>, n: int)
    requires
        0 <= n <= inputs.len(),
        selected_sql_files(inputs.take(n)) is Err,
    ensures
        selected_sql_files(inputs) == selected_sql_files(inputs.take(n)),
    decreases inputs.len() - n,
{
    if n < inputs.len() {
        assert(inputs.take(n + 1).drop_last() =~= inputs.take(n));
        lemma_selected_err_sticks(inputs, n + 1);
    } else {
        assert(inputs.take(n) =~= inputs);
    }
}

/// Collects the `.sql` files of the given paths in order; fails on the first missing path.
pub fn select_sql_files(inputs: &[PathInput]) -> (r: Result<(Vec<String>, Vec<Vec<u16>>), CollectError>)
    ensures
        match selected_sql_files(inputs@.map_values(|i: PathInput| i@)) {
            Ok(sel) => r matches Ok((t, k)) && lists_files(t@, k@, sel),
            Err(m) => r matches Err(CollectError::PathNotFound(p)) && p@ == m,
        },
{
    let ghost views = inputs@.map_values(|i: PathInput| i@);
    let mut t: Vec<String> = Vec::new();
    let mut k: Vec<Vec<u16>> = Vec::new();
    let ghost mut cur: Seq<FsPathView> = seq![];
    let mut i: usize = 0;
    while i < inputs.len()
        invariant
            i <= inputs@.len(),
            views == inputs@.map_values(|i: PathInput| i@),
            selected_sql_files(views.take(i as int)) == Ok::<Seq<FsPathView>, Seq<char>>(cur),
            lists_files(t@, k@, cur),
        decreases inputs@.len() - i,
    {
        let ghost before = cur;
        proof {
            assert(views.take(i + 1).drop_last() =~= views.take(i as int));
            assert(views.take(i + 1).last() == views[i as int]);
            assert(views[i as int] == inputs@[i as int]@);
        }
        match &inputs[i] {
            PathInput::File(p) => {
                if is_sql_file(p.text.as_str()) {
                    push_file(&mut t, &mut k, p, Ghost(cur));
                    proof { cur = cur.push(p@); }
                    assert(cur =~= before + input_sql_files(views[i as int]));
                } else {
                    assert(cur =~= before + input_sql_files(views[i as int]));
                }
            },
            PathInput::Dir(ps) => {
                let ghost pviews = ps@.map_values(|p: FsPath| p@);
                let ghost base = cur;
                let mut j: usize = 0;
                while j < ps.len()
                    invariant
                        j <= ps@.len(),
                        pviews == ps@.map_values(|p: FsPath| p@),
                        cur == base + sql_paths(pviews.take(j as int)),
                        lists_files(t@, k@, cur),
                    decreases ps@.len() - j,
                {
                    proof {
                        assert(pviews.take(j + 1).drop_last() =~= pviews.take(j as int));
                        assert(pviews.take(j + 1).last() == pviews[j as int]);
                    }
                    if is_sql_file(ps[j].text.as_str()) {
                        push_file(&mut t, &mut k, &ps[j], Ghost(cur));
                        proof { cur = cur.push(ps@[j as int]@); }
                        assert(cur =~= base + sql_paths(pviews.take(j + 1)));
                    }
                    j = j + 1;
                }
                assert(pviews.take(ps@.len() as int) =~= pviews);
                assert(cur == before + input_sql_files(views[i as int]));
            },
            PathInput::Missing(p) => {
                proof { lemma_selected_err_sticks(views, i + 1); }
                assert(views.take(inputs@.len() as int) =~= views);
                return Err(CollectError::PathNotFound(p.clone()));
            },
        }
        assert(selected_sql_files(views.take(i + 1)) == Ok::<Seq<FsPathView>, Seq<char>>(before + input_sql_files(views[i as int])));
        i = i + 1;
    }
    assert(views.take(inputs@.len() as int) =~= views);
    Ok((t, k))
}

} // verus!

verus! {

pub open spec fn keys_view(keys: Seq<Vec<u16>>) -> Seq<Seq<int>> {
    keys.map_values(|k: Vec<u16>| key_view(k@))
}

/// Every index of `order` is below `m`.
pub open spec fn indices_below(order: Seq<usize>, m: int) -> bool {
    forall|i: int| 0 <= i < order.len() ==> (#[trigger] order[i]) < m
}

/// Every index of `order` is the first index of its key.
pub open spec fn indices_first(ks: Seq<Seq<int>>, order: Seq<usize>) -> bool {
    forall|i: int, k: int| #![trigger order[i], ks[k]] 0 <= i < order.len() && 0 <= k < order[i] ==> ks[k] != ks[order[i] as int]
}

/// The keys at the indices of `order` strictly increase.
pub open spec fn indices_sorted(ks: Seq<Seq<int>>, order: Seq<usize>) -> bool {
    forall|i: int, j: int| 0 <= i < j < order.len() ==> key_lt(ks[#[trigger] order[i] as int], ks[#[trigger] order[j] as int])
}

/// Two keys are the same.
pub open spec fn same_key(a: Seq<int>, b: Seq<int>) -> bool {
    a == b
}

/// The key of `j` is the key of an index of `order`.
pub open spec fn key_listed(ks: Seq<Seq<int>>, order: Seq<usize>, j: int) -> bool {
    exists|i: int| #![trigger order[i]] 0 <= i < order.len() && same_key(ks[order[i] as int], ks[j])
}

/// Every key among the first `m` is the key of an index of `order`.
pub open spec fn keys_covered(ks: Seq<Seq<int>>, m: int, order: Seq<usize>) -> bool {
    forall|j: int| 0 <= j < m ==> #[trigger] key_listed(ks, order, j)
}

/// `order` lists the first index of each key of `ks` among the first `m`, in key order.
pub open spec fn first_indices_in_order(ks: Seq<Seq<int>>, m: int, order: Seq<usize>) -> bool {
    &&& indices_below(order, m)
    &&& indices_first(ks, order)
    &&& indices_sorted(ks, order)
    &&& keys_covered(ks, m, order)
}

proof fn lemma_skip_repeated_key(ks: Seq<Seq<int>>, m: int, order: Seq<usize>, pos: int)
    requires
        first_indices_in_order(ks, m, order),
        0 <= pos < order.len(),
        0 <= m < ks.len(),
        ks[order[pos] as int] == ks[m],
    ensures
        first_indices_in_order(ks, m + 1, order),
{
    assert forall|j: int| 0 <= j < m + 1 implies #[trigger] key_listed(ks, order, j) by {
        if j == m {
            assert(same_key(ks[order[pos] as int], ks[j]));
        }
    }
}

proof fn lemma_insert_below(m: int, old_order: Seq<usize>, pos: int, o: Seq<usize>)
    requires
        indices_below(old_order, m),
        0 <= pos <= old_order.len(),
        0 <= m <= usize::MAX,
        o == old_order.insert(pos, m as usize),
    ensures
        indices_below(o, m + 1),
{
    assert forall|i: int| 0 <= i < o.len() implies (#[trigger] o[i]) < m + 1 by {
        if i < pos { assert(o[i] == old_order[i]); } else if i > pos { assert(o[i] == old_order[i - 1]); }
    }
}

proof fn lemma_insert_first(ks: Seq<Seq<int>>, m: int, old_order: Seq<usize>, pos: int, o: Seq<usize>)
    requires
        indices_first(ks, old_order),
        forall|k: int| 0 <= k < m ==> #[trigger] ks[k] != ks[m],
        0 <= pos <= old_order.len(),
        0 <= m <= usize::MAX,
        o == old_order.insert(pos, m as usize),
    ensures
        indices_first(ks, o),
{
    assert forall|i: int, k: int| #![trigger o[i], ks[k]] 0 <= i < o.len() && 0 <= k < o[i] implies ks[k] != ks[o[i] as int] by {
        if i < pos {
            assert(o[i] == old_order[i]);
            assert(ks[k] != ks[old_order[i] as int]);
        } else if i > pos {
            assert(o[i] == old_order[i - 1]);
            assert(ks[k] != ks[old_order[i - 1] as int]);
        }
    }
}

proof fn lemma_new_key_is_first(ks: Seq<Seq<int>>, m: int, old_order: Seq<usize>, pos: int)
    requires
        keys_covered(ks, m, old_order),
        indices_sorted(ks, old_order),
        0 <= pos <= old_order.len(),
        0 <= m < ks.len(),
        forall|i: int| 0 <= i < pos ==> key_lt(ks[#[trigger] old_order[i] as int], ks[m]),
        pos < old_order.len() ==> key_lt(ks[m], ks[old_order[pos] as int]),
    ensures
        forall|k: int| 0 <= k < m ==> #[trigger] ks[k] != ks[m],
{
    assert forall|k: int| 0 <= k < m implies #[trigger] ks[k] != ks[m] by {
        assert(key_listed(ks, old_order, k));
        let i = choose|i: int| #![trigger old_order[i]] 0 <= i < old_order.len() && same_key(ks[old_order[i] as int], ks[k]);
        if i < pos {
            assert(key_lt(ks[old_order[i] as int], ks[m]));
            lemma_key_lt_irreflexive(ks[m]);
        } else {
            if i > pos {
                lemma_key_lt_transitive(ks[m], ks[old_order[pos] as int], ks[old_order[i] as int]);
            }
            lemma_key_lt_irreflexive(ks[m]);
        }
    }
}

proof fn lemma_insert_sorted(ks: Seq<Seq<int>>, m: int, old_order: Seq<usize>, pos: int, o: Seq<usize>)
    requires
        indices_sorted(ks, old_order),
        0 <= pos <= old_order.len(),
        0 <= m <= usize::MAX,
        forall|i: int| 0 <= i < pos ==> key_lt(ks[#[trigger] old_order[i] as int], ks[m]),
        pos < old_order.len() ==> key_lt(ks[m], ks[old_order[pos] as int]),
        o == old_order.insert(pos, m as usize),
    ensures
        indices_sorted(ks, o),
{
    assert forall|i: int, j: int| 0 <= i < j < o.len() implies key_lt(ks[#[trigger] o[i] as int], ks[#[trigger] o[j] as int]) by {
        if j < pos {
            assert(o[i] == old_order[i] && o[j] == old_order[j]);
        } else if j == pos {
            assert(o[i] == old_order[i]);
        } else if i > pos {
            assert(o[i] == old_order[i - 1] && o[j] == old_order[j - 1]);
        } else if i == pos {
            assert(o[j] == old_order[j - 1]);
            if j - 1 > pos {
                lemma_key_lt_transitive(ks[m], ks[old_order[pos] as int], ks[old_order[j - 1] as int]);
            }
        } else {
            assert(o[i] == old_order[i] && o[j] == old_order[j - 1]);
            assert(key_lt(ks[old_order[i] as int], ks[m]));
            if j - 1 > pos {
                lemma_key_lt_transitive(ks[m], ks[old_order[pos] as int], ks[old_order[j - 1] as int]);
            }
            lemma_key_lt_transitive(ks[old_order[i] as int], ks[m], ks[old_order[j - 1] as int]);
        }
    }
}

proof fn lemma_insert_covered(ks: Seq<Seq<int>>, m: int, old_order: Seq<usize>, pos: int, o: Seq<usize>)
    requires
        keys_covered(ks, m, old_order),
        0 <= pos <= old_order.len(),
        0 <= m <= usize::MAX,
        o == old_order.insert(pos, m as usize),
    ensures
        keys_covered(ks, m + 1, o),
{
    assert forall|j: int| 0 <= j < m + 1 implies #[trigger] key_listed(ks, o, j) by {
        if j == m {
            assert(o[pos] == m as usize);
            assert(same_key(ks[o[pos] as int], ks[j]));
        } else {
            assert(key_listed(ks, old_order, j));
            let i = choose|i: int| #![trigger old_order[i]] 0 <= i < old_order.len() && same_key(ks[old_order[i] as int], ks[j]);
            if i < pos {
                assert(o[i] == old_order[i]);
                assert(same_key(ks[o[i] as int], ks[j]));
            } else {
                assert(o[i + 1] == old_order[i]);
                assert(same_key(ks[o[i + 1] as int], ks[j]));
            }
        }
    }
}

/// The place of key `m` among the keys that `order` lists: every key before it is smaller.
fn search_position(keys: &Vec<Vec<u16>>, order: &Vec<usize>, m: usize) -> (pos: usize)
    requires
        m < keys@.len(),
        forall|i: int| 0 <= i < order@.len() ==> (#[trigger] order@[i]) < keys@.len(),
    ensures
        pos <= order@.len(),
        forall|i: int| 0 <= i < pos ==> key_lt(keys_view(keys@)[#[trigger] order@[i] as int], keys_view(keys@)[m as int]),
        pos < order@.len() ==> !key_lt(keys_view(keys@)[order@[pos as int] as int], keys_view(keys@)[m as int]),
{
    let ghost ks = keys_view(keys@);
    let mut pos: usize = 0;
    while pos < order.len() && key_less(&keys[order[pos]], &keys[m])
        invariant
            pos <= order@.len(),
            m < keys@.len(),
            ks == keys_view(keys@),
            forall|i: int| 0 <= i < order@.len() ==> (#[trigger] order@[i]) < keys@.len(),
            forall|i: int| 0 <= i < pos ==> key_lt(ks[#[trigger] order@[i] as int], ks[m as int]),
        decreases order@.len() - pos,
    {
        pos = pos + 1;
    }
    pos
}

fn add_index(keys: &Vec<Vec<u16>>, order: &mut Vec<usize>, m: usize)
    requires
        m < keys@.len(),
        first_indices_in_order(keys_view(keys@), m as int, old(order)@),
    ensures
        first_indices_in_order(keys_view(keys@), m + 1, final(order)@),
{
    let ghost ks = keys_view(keys@);
    assert forall|i: int| 0 <= i < order@.len() implies (#[trigger] order@[i]) < keys@.len() by {
        assert(order@[i] < m);
    }
    let pos = search_position(keys, order, m);
    let ghost old_order = order@;
    if pos < order.len() && !key_less(&keys[m], &keys[order[pos]]) {
        proof {
            lemma_key_lt_total(ks[order@[pos as int] as int], ks[m as int]);
            lemma_skip_repeated_key(ks, m as int, order@, pos as int);
        }
    } else {
        proof {
            if pos < order@.len() {
                lemma_key_lt_total(ks[order@[pos as int] as int], ks[m as int]);
            }
        }
        order.insert(pos, m);
        proof {
            lemma_new_key_is_first(ks, m as int, old_order, pos as int);
            lemma_insert_below(m as int, old_order, pos as int, order@);
            lemma_insert_first(ks, m as int, old_order, pos as int, order@);
            lemma_insert_sorted(ks, m as int, old_order, pos as int, order@);
            lemma_insert_covered(ks, m as int, old_order, pos as int, order@);
        }
    }
}

/// The index of the first occurrence of each key, in the order of the keys.
pub fn sorted_first_indices(keys: &Vec<Vec<u16>>) -> (order: Vec<usize>)
    ensures
        first_indices_in_order(keys_view(keys@), keys@.len() as int, order@),
{
    let mut order: Vec<usize> = Vec::new();
    let mut m: usize = 0;
    while m < keys.len()
        invariant
            m <= keys@.len(),
            first_indices_in_order(keys_view(keys@), m as int, order@),
        decreases keys@.len() - m,
    {
        add_index(keys, &mut order, m);
        m = m + 1;
    }
    order
}

} // verus!

verus! {

/// The indices of `order` as integers.
pub open spec fn index_seq(order: Seq<usize>) -> Seq<int> {
    order.map_values(|x: usize| x as int)
}

pub proof fn lemma_sorted_dedup_witness(
    sel: Seq<FsPathView>,
    t: Seq<String>,
    k: Seq<Vec<u16>>,
    order: Seq<usize>,
    out: Seq<Seq<char>>,
)
    requires
        lists_files(t, k, sel),
        first_indices_in_order(keys_view(k), k.len() as int, order),
        out.len() == order.len(),
        forall|i: int| 0 <= i < out.len() ==> #[trigger] out[i] == t[order[i] as int]@,
    ensures
        sorted_dedup_witness(sel, out, index_seq(order)),
{
    let ks = keys_view(k);
    let idx = index_seq(order);
    assert forall|j: int| 0 <= j < sel.len() implies #[trigger] ks[j] == file_key(sel[j]) by {
        assert(ks[j] == key_view(k[j]@));
    }
    assert forall|i: int| 0 <= i < out.len() implies first_of_key(sel, #[trigger] idx[i]) && out[i] == sel[idx[i]].text by {
        assert(idx[i] == order[i] as int);
        assert(order[i] < k.len());
        assert forall|q: int| 0 <= q < idx[i] implies file_key(#[trigger] sel[q]) != file_key(sel[idx[i]]) by {
            assert(ks[q] != ks[order[i] as int]);
        }
    }
    assert forall|i: int, j: int| 0 <= i < j < out.len() implies key_lt(file_key(sel[#[trigger] idx[i]]), file_key(sel[#[trigger] idx[j]])) by {
        assert(idx[i] == order[i] as int && idx[j] == order[j] as int);
        assert(order[i] < k.len() && order[j] < k.len());
        assert(key_lt(ks[order[i] as int], ks[order[j] as int]));
    }
    assert forall|j: int| 0 <= j < sel.len() implies #[trigger] key_kept(sel, out.len() as int, idx, j) by {
        assert(key_listed(ks, order, j));
        let i = choose|i: int| #![trigger order[i]] 0 <= i < order.len() && same_key(ks[order[i] as int], ks[j]);
        assert(idx[i] == order[i] as int);
        assert(order[i] < k.len());
        assert(same_key(file_key(sel[idx[i]]), file_key(sel[j])));
    }
    assert(idx.len() == out.len());
    assert(forall|i: int| 0 <= i < out.len() ==> first_of_key(sel, #[trigger] idx[i]) && out[i] == sel[idx[i]].text);
    assert(forall|i: int, j: int| 0 <= i < j < out.len() ==> key_lt(file_key(sel[#[trigger] idx[i]]), file_key(sel[#[trigger] idx[j]])));
}

} // verus!

verus! {

/// The keys are strictly increasing.
pub open spec fn keys_increasing(k: Seq<Seq<int>>) -> bool {
    forall|i: int, j: int| 0 <= i < j < k.len() ==> key_lt(#[trigger] k[i], #[trigger] k[j])
}

/// Some key of `k` is `x`.
pub open spec fn key_among(k: Seq<Seq<int>>, x: Seq<int>) -> bool {
    exists|j: int| 0 <= j < k.len() && same_key(#[trigger] k[j], x)
}

proof fn lemma_increasing_same_keys_prefix(k1: Seq<Seq<int>>, k2: Seq<Seq<int>>, n: int)
    requires
        keys_increasing(k1),
        keys_increasing(k2),
        forall|i: int| 0 <= i < k1.len() ==> #[trigger] key_among(k2, k1[i]),
        forall|j: int| 0 <= j < k2.len() ==> #[trigger] key_among(k1, k2[j]),
        0 <= n <= k1.len(),
        n <= k2.len(),
    ensures
        forall|i: int| 0 <= i < n ==> #[trigger] k1[i] == k2[i],
    decreases n,
{
    if n > 0 {
        lemma_increasing_same_keys_prefix(k1, k2, n - 1);
        let i = n - 1;
        assert(key_among(k2, k1[i]));
        let j = choose|j: int| 0 <= j < k2.len() && same_key(#[trigger] k2[j], k1[i]);
        if j < i {
            assert(k1[j] == k2[j]);
            assert(key_lt(k1[j], k1[i]));
            lemma_key_lt_irreflexive(k1[i]);
        } else if j > i {
            assert(key_among(k1, k2[i]));
            let l = choose|l: int| 0 <= l < k1.len() && same_key(#[trigger] k1[l], k2[i]);
            assert(key_lt(k2[i], k2[j]));
            if l == i {
                lemma_key_lt_irreflexive(k1[i]);
            } else if l > i {
                assert(key_lt(k1[i], k1[l]));
                lemma_key_lt_asymmetric(k1[i], k1[l]);
            } else {
                assert(k1[l] == k2[l]);
                assert(key_lt(k2[l], k2[i]));
                lemma_key_lt_irreflexive(k2[i]);
            }
        }
    }
}

/// Two strictly increasing sequences of keys with the same keys are equal.
pub proof fn lemma_increasing_same_keys_equal(k1: Seq<Seq<int>>, k2: Seq<Seq<int>>)
    requires
        keys_increasing(k1),
        keys_increasing(k2),
        forall|i: int| 0 <= i < k1.len() ==> #[trigger] key_among(k2, k1[i]),
        forall|j: int| 0 <= j < k2.len() ==> #[trigger] key_among(k1, k2[j]),
    ensures
        k1 == k2,
{
    if k1.len() > k2.len() {
        lemma_increasing_same_keys_prefix(k1, k2, k2.len() as int);
        let i = k2.len() as int;
        assert(key_among(k2, k1[i]));
        let j = choose|j: int| 0 <= j < k2.len() && same_key(#[trigger] k2[j], k1[i]);
        assert(k1[j] == k2[j]);
        assert(key_lt(k1[j], k1[i]));
        lemma_key_lt_irreflexive(k1[i]);
    } else if k2.len() > k1.len() {
        lemma_increasing_same_keys_prefix(k1, k2, k1.len() as int);
        let j = k1.len() as int;
        assert(key_among(k1, k2[j]));
        let i = choose|i: int| 0 <= i < k1.len() && same_key(#[trigger] k1[i], k2[j]);
        assert(k1[i] == k2[i]);
        assert(key_lt(k2[i], k2[j]));
        lemma_key_lt_irreflexive(k2[j]);
    } else {
        lemma_increasing_same_keys_prefix(k1, k2, k1.len() as int);
        assert(k1 =~= k2);
    }
}

/// The keys of the files that `idx` picks.
pub open spec fn picked_keys(sel: Seq<FsPathView>, idx: Seq<int>) -> Seq<Seq<int>> {
    idx.map_values(|x: int| file_key(sel[x]))
}

proof fn lemma_picked_keys_facts(sel: Seq<FsPathView>, out: Seq<Seq<char>>, idx: Seq<int>, other: Seq<int>, n: int)
    requires
        sorted_dedup_witness(sel, out, idx),
        forall|j: int| 0 <= j < sel.len() ==> #[trigger] key_kept(sel, n, other, j),
        0 <= n <= other.len(),
    ensures
        keys_increasing(picked_keys(sel, idx)),
        forall|i: int| 0 <= i < picked_keys(sel, idx).len() ==> #[trigger] key_among(picked_keys(sel, other).take(n), picked_keys(sel, idx)[i]),
{
    let k = picked_keys(sel, idx);
    let ko = picked_keys(sel, other).take(n);
    assert forall|i: int, j: int| 0 <= i < j < k.len() implies key_lt(#[trigger] k[i], #[trigger] k[j]) by {
        assert(key_lt(file_key(sel[idx[i]]), file_key(sel[idx[j]])));
    }
    assert forall|i: int| 0 <= i < k.len() implies #[trigger] key_among(ko, k[i]) by {
        assert(first_of_key(sel, idx[i]));
        assert(key_kept(sel, n, other, idx[i]));
        let q = choose|q: int| #![trigger other[q]] 0 <= q < n && same_key(file_key(sel[other[q]]), file_key(sel[idx[i]]));
        assert(same_key(ko[q], k[i]));
    }
}

/// Sorting the selected files by path and dropping repeats leaves one possible list: the
/// result that the collector promises is determined by the selected files.
pub proof fn sorted_dedup_is_unique(sel: Seq<FsPathView>, out1: Seq<Seq<char>>, out2: Seq<Seq<char>>)
    requires
        is_sorted_dedup(sel, out1),
        is_sorted_dedup(sel, out2),
    ensures
        out1 == out2,
{
    let idx1 = choose|idx: Seq<int>| sorted_dedup_witness(sel, out1, idx);
    let idx2 = choose|idx: Seq<int>| sorted_dedup_witness(sel, out2, idx);
    lemma_picked_keys_facts(sel, out1, idx1, idx2, out2.len() as int);
    lemma_picked_keys_facts(sel, out2, idx2, idx1, out1.len() as int);
    let k1 = picked_keys(sel, idx1);
    let k2 = picked_keys(sel, idx2);
    assert(k2.take(out2.len() as int) =~= k2);
    assert(k1.take(out1.len() as int) =~= k1);
    lemma_increasing_same_keys_equal(k1, k2);
    assert forall|i: int| 0 <= i < out1.len() implies out1[i] == out2[i] by {
        assert(k1[i] == k2[i]);
        assert(first_of_key(sel, idx1[i]) && first_of_key(sel, idx2[i]));
        if idx1[i] < idx2[i] {
            assert(file_key(sel[idx1[i]]) != file_key(sel[idx2[i]]));
        } else if idx1[i] > idx2[i] {
            assert(file_key(sel[idx2[i]]) != file_key(sel[idx1[i]]));
        }
    }
    assert(out1 =~= out2);
}

} // verus!

verus! {

/// Some file of `ps` has the key `k`.
pub open spec fn has_key_in(ps: Seq<FsPathView>, k: Seq<int>) -> bool {
    exists|j: int| 0 <= j < ps.len() && #[trigger] file_key(ps[j]) == k
}

/// Some given path contributes a file with the key `k`.
pub open spec fn inputs_have_key(ins: Seq<PathInputView>, k: Seq<int>) -> bool {
    exists|i: int| 0 <= i < ins.len() && has_key_in(input_sql_files(#[trigger] ins[i]), k)
}

/// Every given path of `a` is also a given path of `b`.
pub open spec fn inputs_within(a: Seq<PathInputView>, b: Seq<PathInputView>) -> bool {
    forall|i: int| 0 <= i < a.len() ==> exists|j: int| 0 <= j < b.len() && #[trigger] b[j] == #[trigger] a[i]
}

proof fn lemma_selected_ok(ins: Seq<PathInputView>)
    ensures
        (selected_sql_files(ins) is Ok) <==> forall|i: int| 0 <= i < ins.len() ==> !(#[trigger] ins[i] is Missing),
    decreases ins.len(),
{
    if ins.len() > 0 {
        let init = ins.drop_last();
        lemma_selected_ok(init);
        if selected_sql_files(ins) is Ok {
            assert forall|i: int| 0 <= i < ins.len() implies !(#[trigger] ins[i] is Missing) by {
                if i < ins.len() - 1 {
                    assert(init[i] == ins[i]);
                }
            }
        } else {
            if selected_sql_files(init) is Ok {
                assert(ins[ins.len() - 1] is Missing);
            } else {
                let i = choose|i: int| 0 <= i < init.len() && #[trigger] init[i] is Missing;
                assert(ins[i] == init[i]);
            }
        }
    }
}

proof fn lemma_has_key_in_concat(a: Seq<FsPathView>, b: Seq<FsPathView>, k: Seq<int>)
    ensures
        has_key_in(a + b, k) == (has_key_in(a, k) || has_key_in(b, k)),
{
    if has_key_in(a + b, k) {
        let j = choose|j: int| 0 <= j < (a + b).len() && #[trigger] file_key((a + b)[j]) == k;
        if j < a.len() {
            assert(file_key(a[j]) == k);
        } else {
            assert(file_key(b[j - a.len()]) == k);
        }
    }
    if has_key_in(a, k) {
        let j = choose|j: int| 0 <= j < a.len() && #[trigger] file_key(a[j]) == k;
        assert(file_key((a + b)[j]) == k);
    }
    if has_key_in(b, k) {
        let j = choose|j: int| 0 <= j < b.len() && #[trigger] file_key(b[j]) == k;
        assert(file_key((a + b)[a.len() + j]) == k);
    }
}

proof fn lemma_selected_keys(ins: Seq<PathInputView>, k: Seq<int>)
    requires
        selected_sql_files(ins) is Ok,
    ensures
        has_key_in(selected_sql_files(ins)->Ok_0, k) == inputs_have_key(ins, k),
    decreases ins.len(),
{
    if ins.len() == 0 {
    } else {
        let init = ins.drop_last();
        let last = ins.last();
        lemma_selected_keys(init, k);
        let s0 = selected_sql_files(init)->Ok_0;
        assert(selected_sql_files(ins)->Ok_0 == s0 + input_sql_files(last));
        lemma_has_key_in_concat(s0, input_sql_files(last), k);
        if inputs_have_key(ins, k) {
            let i = choose|i: int| 0 <= i < ins.len() && has_key_in(input_sql_files(#[trigger] ins[i]), k);
            if i < ins.len() - 1 {
                assert(init[i] == ins[i]);
                assert(inputs_have_key(init, k));
            }
        }
        if inputs_have_key(init, k) {
            let i = choose|i: int| 0 <= i < init.len() && has_key_in(input_sql_files(#[trigger] init[i]), k);
            assert(init[i] == ins[i]);
        }
        if has_key_in(input_sql_files(last), k) {
            assert(ins[ins.len() - 1] == last);
        }
    }
}

proof fn lemma_inputs_within_keys(a: Seq<PathInputView>, b: Seq<PathInputView>, k: Seq<int>)
    requires
        inputs_within(a, b),
        inputs_have_key(a, k),
    ensures
        inputs_have_key(b, k),
{
    let i = choose|i: int| 0 <= i < a.len() && has_key_in(input_sql_files(#[trigger] a[i]), k);
    let j = choose|j: int| 0 <= j < b.len() && #[trigger] b[j] == #[trigger] a[i];
    assert(has_key_in(input_sql_files(b[j]), k));
}

proof fn lemma_picked_keys_among(
    sel1: Seq<FsPathView>,
    out1: Seq<Seq<char>>,
    idx1: Seq<int>,
    sel2: Seq<FsPathView>,
    out2: Seq<Seq<char>>,
    idx2: Seq<int>,
)
    requires
        sorted_dedup_witness(sel1, out1, idx1),
        sorted_dedup_witness(sel2, out2, idx2),
        forall|k: Seq<int>| has_key_in(sel1, k) ==> #[trigger] has_key_in(sel2, k),
    ensures
        keys_increasing(picked_keys(sel1, idx1)),
        forall|i: int| 0 <= i < picked_keys(sel1, idx1).len() ==> #[trigger] key_among(picked_keys(sel2, idx2), picked_keys(sel1, idx1)[i]),
{
    let k1 = picked_keys(sel1, idx1);
    let k2 = picked_keys(sel2, idx2);
    assert forall|i: int, j: int| 0 <= i < j < k1.len() implies key_lt(#[trigger] k1[i], #[trigger] k1[j]) by {
        assert(key_lt(file_key(sel1[idx1[i]]), file_key(sel1[idx1[j]])));
    }
    assert forall|i: int| 0 <= i < k1.len() implies #[trigger] key_among(k2, k1[i]) by {
        assert(first_of_key(sel1, idx1[i]));
        let key = file_key(sel1[idx1[i]]);
        assert(has_key_in(sel1, key));
        assert(has_key_in(sel2, key));
        let j = choose|j: int| 0 <= j < sel2.len() && #[trigger] file_key(sel2[j]) == key;
        assert(key_kept(sel2, out2.len() as int, idx2, j));
        let q = choose|q: int| #![trigger idx2[q]] 0 <= q < out2.len() && same_key(file_key(sel2[idx2[q]]), file_key(sel2[j]));
        assert(same_key(k2[q], k1[i]));
    }
}

/// The collected files do not depend on the order or the repetition of the given paths:
/// the same given paths, in any order and any number of times, either all succeed or all
/// fail, and when they succeed they give the same files, path by path (compared by their
/// components, as `Path` compares; a path spelled two ways may keep either spelling).
pub proof fn collected_files_ignore_input_order(
    in1: Seq<PathInputView>,
    in2: Seq<PathInputView>,
    out1: Seq<Seq<char>>,
    out2: Seq<Seq<char>>,
)
    requires
        inputs_within(in1, in2),
        inputs_within(in2, in1),
    ensures
        (selected_sql_files(in1) is Ok) == (selected_sql_files(in2) is Ok),
        selected_sql_files(in1) is Ok && is_sorted_dedup(selected_sql_files(in1)->Ok_0, out1)
            && is_sorted_dedup(selected_sql_files(in2)->Ok_0, out2) ==> exists|idx1: Seq<int>, idx2: Seq<int>|
            #![trigger sorted_dedup_witness(selected_sql_files(in1)->Ok_0, out1, idx1), sorted_dedup_witness(selected_sql_files(in2)->Ok_0, out2, idx2)]
            sorted_dedup_witness(selected_sql_files(in1)->Ok_0, out1, idx1)
                && sorted_dedup_witness(selected_sql_files(in2)->Ok_0, out2, idx2)
                && picked_keys(selected_sql_files(in1)->Ok_0, idx1) == picked_keys(selected_sql_files(in2)->Ok_0, idx2),
{
    lemma_selected_ok(in1);
    lemma_selected_ok(in2);
    if selected_sql_files(in1) is Ok && !(selected_sql_files(in2) is Ok) {
        let i = choose|i: int| 0 <= i < in2.len() && #[trigger] in2[i] is Missing;
        let j = choose|j: int| 0 <= j < in1.len() && #[trigger] in1[j] == #[trigger] in2[i];
        assert(!(in1[j] is Missing));
    }
    if selected_sql_files(in2) is Ok && !(selected_sql_files(in1) is Ok) {
        let i = choose|i: int| 0 <= i < in1.len() && #[trigger] in1[i] is Missing;
        let j = choose|j: int| 0 <= j < in2.len() && #[trigger] in2[j] == #[trigger] in1[i];
        assert(!(in2[j] is Missing));
    }
    if selected_sql_files(in1) is Ok && is_sorted_dedup(selected_sql_files(in1)->Ok_0, out1)
        && is_sorted_dedup(selected_sql_files(in2)->Ok_0, out2) {
        let s1 = selected_sql_files(in1)->Ok_0;
        let s2 = selected_sql_files(in2)->Ok_0;
        assert forall|k: Seq<int>| has_key_in(s1, k) implies #[trigger] has_key_in(s2, k) by {
            lemma_selected_keys(in1, k);
            lemma_selected_keys(in2, k);
            lemma_inputs_within_keys(in1, in2, k);
        }
        assert forall|k: Seq<int>| has_key_in(s2, k) implies #[trigger] has_key_in(s1, k) by {
            lemma_selected_keys(in1, k);
            lemma_selected_keys(in2, k);
            lemma_inputs_within_keys(in2, in1, k);
        }
        let idx1 = choose|idx: Seq<int>| sorted_dedup_witness(s1, out1, idx);
        let idx2 = choose|idx: Seq<int>| sorted_dedup_witness(s2, out2, idx);
        lemma_picked_keys_among(s1, out1, idx1, s2, out2, idx2);
        lemma_picked_keys_among(s2, out2, idx2, s1, out1, idx1);
        lemma_increasing_same_keys_equal(picked_keys(s1, idx1), picked_keys(s2, idx2));
    }
}

} // verus!

verus! {

proof fn lemma_text_key_split(s: Seq<char>, t: Seq<char>, x: Seq<int>, y: Seq<int>)
    requires
        text_key(s) + x == text_key(t) + y,
    ensures
        s == t,
        x == y,
{
    let bs = vstd::utf8::encode_utf8(s);
    let bt = vstd::utf8::encode_utf8(t);
    let a = text_key(s) + x;
    let b = text_key(t) + y;
    assert(text_key(s).len() == bs.len() + 1);
    assert(text_key(t).len() == bt.len() + 1);
    if bs.len() < bt.len() {
        assert(a[bs.len() as int] == 0);
        assert(b[bs.len() as int] == bt[bs.len() as int] as int + 1);
    } else if bt.len() < bs.len() {
        assert(b[bt.len() as int] == 0);
        assert(a[bt.len() as int] == bs[bt.len() as int] as int + 1);
    } else {
        assert forall|i: int| 0 <= i < bs.len() implies bs[i] == bt[i] by {
            assert(a[i] == bs[i] as int + 1);
            assert(b[i] == bt[i] as int + 1);
        }
        assert(bs =~= bt);
        vstd::utf8::encode_utf8_decode_utf8(s);
        vstd::utf8::encode_utf8_decode_utf8(t);
        assert(text_key(s) == text_key(t));
        let n = text_key(s).len() as int;
        assert(x =~= a.skip(n));
        assert(y =~= b.skip(n));
    }
}

/// Different texts have different keys: a text's key is its UTF-8 bytes in full.
pub proof fn text_key_injective(s: Seq<char>, t: Seq<char>)
    requires
        text_key(s) == text_key(t),
    ensures
        s == t,
{
    assert(text_key(s) + Seq::<int>::empty() =~= text_key(t) + Seq::<int>::empty());
    lemma_text_key_split(s, t, Seq::empty(), Seq::empty());
}

proof fn lemma_prefix_key_split(p: PathPrefixView, q: PathPrefixView, x: Seq<int>, y: Seq<int>)
    requires
        prefix_key(p) + x == prefix_key(q) + y,
    ensures
        p == q,
        x == y,
{
    let a = prefix_key(p) + x;
    let b = prefix_key(q) + y;
    assert(a[0] == prefix_key(p)[0]);
    assert(b[0] == prefix_key(q)[0]);
    let ra = a.drop_first();
    let rb = b.drop_first();
    assert(ra == rb);
    match (p, q) {
        (PathPrefixView::Verbatim(s), PathPrefixView::Verbatim(t)) => {
            assert(ra =~= text_key(s) + x);
            assert(rb =~= text_key(t) + y);
            lemma_text_key_split(s, t, x, y);
        },
        (PathPrefixView::VerbatimUNC(s1, s2), PathPrefixView::VerbatimUNC(t1, t2)) => {
            assert(ra =~= text_key(s1) + (text_key(s2) + x));
            assert(rb =~= text_key(t1) + (text_key(t2) + y));
            lemma_text_key_split(s1, t1, text_key(s2) + x, text_key(t2) + y);
            lemma_text_key_split(s2, t2, x, y);
        },
        (PathPrefixView::VerbatimDisk(d), PathPrefixView::VerbatimDisk(e)) => {
            assert(a[1] == d as int && b[1] == e as int);
            assert(x =~= a.skip(2));
            assert(y =~= b.skip(2));
        },
        (PathPrefixView::DeviceNS(s), PathPrefixView::DeviceNS(t)) => {
            assert(ra =~= text_key(s) + x);
            assert(rb =~= text_key(t) + y);
            lemma_text_key_split(s, t, x, y);
        },
        (PathPrefixView::UNC(s1, s2), PathPrefixView::UNC(t1, t2)) => {
            assert(ra =~= text_key(s1) + (text_key(s2) + x));
            assert(rb =~= text_key(t1) + (text_key(t2) + y));
            lemma_text_key_split(s1, t1, text_key(s2) + x, text_key(t2) + y);
            lemma_text_key_split(s2, t2, x, y);
        },
        (PathPrefixView::Disk(d), PathPrefixView::Disk(e)) => {
            assert(a[1] == d as int && b[1] == e as int);
            assert(x =~= a.skip(2));
            assert(y =~= b.skip(2));
        },
        _ => {},
    }
}

proof fn lemma_component_key_split(c: PathComponentView, d: PathComponentView, x: Seq<int>, y: Seq<int>)
    requires
        component_key(c) + x == component_key(d) + y,
    ensures
        c == d,
        x == y,
{
    let a = component_key(c) + x;
    let b = component_key(d) + y;
    assert(a[0] == component_key(c)[0]);
    assert(b[0] == component_key(d)[0]);
    let ra = a.drop_first();
    let rb = b.drop_first();
    assert(ra == rb);
    match (c, d) {
        (PathComponentView::Prefix(p), PathComponentView::Prefix(q)) => {
            assert(ra =~= prefix_key(p) + x);
            assert(rb =~= prefix_key(q) + y);
            lemma_prefix_key_split(p, q, x, y);
        },
        (PathComponentView::Normal(s), PathComponentView::Normal(t)) => {
            assert(ra =~= text_key(s) + x);
            assert(rb =~= text_key(t) + y);
            lemma_text_key_split(s, t, x, y);
        },
        _ => {
            assert(x =~= a.skip(1));
            assert(y =~= b.skip(1));
        },
    }
}

proof fn lemma_path_key_front(cs: Seq<PathComponentView>)
    requires
        cs.len() > 0,
    ensures
        path_key(cs) == component_key(cs[0]) + path_key(cs.drop_first()),
    decreases cs.len(),
{
    if cs.len() == 1 {
        assert(cs.drop_last() =~= Seq::<PathComponentView>::empty());
        assert(cs.drop_first() =~= Seq::<PathComponentView>::empty());
        assert(path_key(cs) =~= component_key(cs[0]) + path_key(cs.drop_first()));
    } else {
        lemma_path_key_front(cs.drop_last());
        assert(cs.drop_last()[0] == cs[0]);
        assert(cs.drop_last().drop_first() =~= cs.drop_first().drop_last());
        assert(cs.drop_first().last() == cs.last());
        assert(path_key(cs) =~= component_key(cs[0]) + path_key(cs.drop_first()));
    }
}

/// Two paths have the same key only when they have the same components: the key of a path
/// loses nothing of its components, so only paths that `Path` counts equal are merged.
pub proof fn path_key_injective(c1: Seq<PathComponentView>, c2: Seq<PathComponentView>)
    requires
        path_key(c1) == path_key(c2),
    ensures
        c1 == c2,
    decreases c1.len(),
{
    if c1.len() == 0 && c2.len() == 0 {
        assert(c1 =~= c2);
    } else if c1.len() == 0 {
        lemma_path_key_front(c2);
        assert(component_key(c2[0]).len() > 0);
    } else if c2.len() == 0 {
        lemma_path_key_front(c1);
        assert(component_key(c1[0]).len() > 0);
    } else {
        lemma_path_key_front(c1);
        lemma_path_key_front(c2);
        lemma_component_key_split(c1[0], c2[0], path_key(c1.drop_first()), path_key(c2.drop_first()));
        path_key_injective(c1.drop_first(), c2.drop_first());
        assert(c1 =~= seq![c1[0]] + c1.drop_first());
        assert(c2 =~= seq![c2[0]] + c2.drop_first());
    }
}

/// Two selected files are taken for the same path only when their components are equal.
pub proof fn same_file_key_same_components(p: FsPathView, q: FsPathView)
    requires
        file_key(p) == file_key(q),
    ensures
        p.components == q.components,
{
    path_key_injective(p.components, q.components);
}

proof fn lemma_key_lt_common_prefix(p: Seq<int>, u: Seq<int>, v: Seq<int>)
    ensures
        key_lt(p + u, p + v) == key_lt(u, v),
    decreases p.len(),
{
    if p.len() > 0 {
        lemma_key_lt_common_prefix(p.drop_first(), u, v);
        assert((p + u).drop_first() =~= p.drop_first() + u);
        assert((p + v).drop_first() =~= p.drop_first() + v);
    } else {
        assert(p + u =~= u);
        assert(p + v =~= v);
    }
}

/// The UTF-8 bytes of `s` and `t` agree before byte `i`, and there `s` has the smaller one.
pub open spec fn first_byte_lower(s: Seq<char>, t: Seq<char>, i: int) -> bool {
    let bs = vstd::utf8::encode_utf8(s);
    let bt = vstd::utf8::encode_utf8(t);
    &&& 0 <= i < bs.len()
    &&& i < bt.len()
    &&& bs.take(i) == bt.take(i)
    &&& bs[i] < bt[i]
}

/// Texts are ordered as their UTF-8 bytes are: a text whose bytes are a proper prefix of
/// another's comes first, and otherwise the first byte in which they differ decides.
pub proof fn text_key_orders_bytes(s: Seq<char>, t: Seq<char>)
    ensures
        ({
            let bs = vstd::utf8::encode_utf8(s);
            let bt = vstd::utf8::encode_utf8(t);
            bs.len() < bt.len() && bt.take(bs.len() as int) == bs
        }) ==> key_lt(text_key(s), text_key(t)),
        forall|i: int| #[trigger] first_byte_lower(s, t, i) ==> key_lt(text_key(s), text_key(t)),
{
    let bs = vstd::utf8::encode_utf8(s);
    let bt = vstd::utf8::encode_utf8(t);
    let ms = bs.map_values(|b: u8| b as int + 1);
    let mt = bt.map_values(|b: u8| b as int + 1);
    if bs.len() < bt.len() && bt.take(bs.len() as int) == bs {
        let n = bs.len() as int;
        assert(mt.take(n) =~= ms) by {
            assert forall|j: int| 0 <= j < n implies mt[j] == ms[j] by {
                assert(bt.take(n)[j] == bt[j]);
            }
        }
        assert(text_key(s) =~= ms + seq![0int]);
        assert(text_key(t) =~= ms + (mt.skip(n) + seq![0int]));
        lemma_key_lt_common_prefix(ms, seq![0int], mt.skip(n) + seq![0int]);
        assert((mt.skip(n) + seq![0int])[0] == bt[n] as int + 1);
    }
    assert forall|i: int| #[trigger] first_byte_lower(s, t, i) implies key_lt(text_key(s), text_key(t)) by {
        let p = ms.take(i);
        assert(mt.take(i) =~= p) by {
            assert forall|j: int| 0 <= j < i implies mt[j] == ms[j] by {
                assert(bs.take(i)[j] == bt.take(i)[j]);
            }
        }
        assert(text_key(s) =~= p + (ms.skip(i) + seq![0int]));
        assert(text_key(t) =~= p + (mt.skip(i) + seq![0int]));
        lemma_key_lt_common_prefix(p, ms.skip(i) + seq![0int], mt.skip(i) + seq![0int]);
        assert((ms.skip(i) + seq![0int])[0] == bs[i] as int + 1);
        assert((mt.skip(i) + seq![0int])[0] == bt[i] as int + 1);
    }
}

} // verus!
