use vstd::prelude::*;
use swc_ecma_ast::Module as SwcModule;
use crate::digest::{blake2b_32, blake2b_32_of, hex_spec, to_hex};
use crate::path::{
    components, is_clean_abs, logical, logical_join, logical_path_of, relative, relative_spec, abs_join, common_len,
    lemma_relative_then_logical,
};
use crate::query::{chars_less, chars_lt, lemma_lt_irrefl, pair_views, query_text, sort_spec, stringify_query};
use std::cmp::Ordering;

verus! {

/// Whether identities are written for people (development) or as short digests (production).
#[derive(PartialEq, Eq, Structural, Clone, Copy, Debug)]
pub enum Mode {
    Development,
    Production,
}

/// Whether two texts hold the same characters.
pub fn str_eq(a: &str, b: &str) -> (r: bool)
    ensures
        r == (a@ == b@),
{
    let n = a.unicode_len();
    if n != b.unicode_len() {
        return false;
    }
    let mut i: usize = 0;
    while i < n
        invariant
            n == a@.len(),
            n == b@.len(),
            i <= n,
            forall|j: int| 0 <= j < i ==> a@[j] == b@[j],
        decreases n - i,
    {
        if a.get_char(i) != b.get_char(i) {
            return false;
        }
        i = i + 1;
    }
    assert(a@ =~= b@);
    true
}

/// The kind of source a module holds.
#[derive(Clone, Debug)]
pub enum ModuleType {
    Js,
    Jsx,
    Ts,
    Tsx,
    Css,
    Html,
    Asset,
    /// A kind that a plugin outside the core names.
    Custom(String),
}

/// The abstract value of a module type: the name of a custom kind by its characters.
pub enum ModuleTypeView {
    Js,
    Jsx,
    Ts,
    Tsx,
    Css,
    Html,
    Asset,
    Custom(Seq<char>),
}

impl View for ModuleType {
    type V = ModuleTypeView;

    open spec fn view(&self) -> ModuleTypeView {
        match self {
            ModuleType::Js => ModuleTypeView::Js,
            ModuleType::Jsx => ModuleTypeView::Jsx,
            ModuleType::Ts => ModuleTypeView::Ts,
            ModuleType::Tsx => ModuleTypeView::Tsx,
            ModuleType::Css => ModuleTypeView::Css,
            ModuleType::Html => ModuleTypeView::Html,
            ModuleType::Asset => ModuleTypeView::Asset,
            ModuleType::Custom(s) => ModuleTypeView::Custom(s@),
        }
    }
}

impl PartialEq for ModuleType {
    fn eq(&self, o: &ModuleType) -> (r: bool) {
        match (self, o) {
            (ModuleType::Js, ModuleType::Js) => true,
            (ModuleType::Jsx, ModuleType::Jsx) => true,
            (ModuleType::Ts, ModuleType::Ts) => true,
            (ModuleType::Tsx, ModuleType::Tsx) => true,
            (ModuleType::Css, ModuleType::Css) => true,
            (ModuleType::Html, ModuleType::Html) => true,
            (ModuleType::Asset, ModuleType::Asset) => true,
            (ModuleType::Custom(a), ModuleType::Custom(b)) => str_eq(a.as_str(), b.as_str()),
            _ => false,
        }
    }
}

impl vstd::std_specs::cmp::PartialEqSpecImpl for ModuleType {
    open spec fn obeys_eq_spec() -> bool {
        true
    }

    open spec fn eq_spec(&self, o: &ModuleType) -> bool {
        self@ == o@
    }
}

impl Eq for ModuleType {
}

/// The module type that a file extension names.
pub open spec fn type_of_ext(ext: Seq<char>) -> ModuleTypeView {
    if ext == seq!['j', 's'] {
        ModuleTypeView::Js
    } else if ext == seq!['j', 's', 'x'] {
        ModuleTypeView::Jsx
    } else if ext == seq!['t', 's'] {
        ModuleTypeView::Ts
    } else if ext == seq!['t', 's', 'x'] {
        ModuleTypeView::Tsx
    } else if ext == seq!['c', 's', 's'] {
        ModuleTypeView::Css
    } else if ext == seq!['h', 't', 'm', 'l'] {
        ModuleTypeView::Html
    } else {
        ModuleTypeView::Custom(ext)
    }
}

pub open spec fn is_typescript_view(t: ModuleTypeView) -> bool {
    t is Ts || t is Tsx
}

pub open spec fn is_script_view(t: ModuleTypeView) -> bool {
    t is Js || t is Jsx || t is Ts || t is Tsx
}

impl ModuleType {
    pub fn is_typescript(&self) -> (r: bool)
        ensures
            r == is_typescript_view(self@),
    {
        matches!(self, ModuleType::Ts) || matches!(self, ModuleType::Tsx)
    }

    pub fn is_script(&self) -> (r: bool)
        ensures
            r == is_script_view(self@),
    {
        matches!(self, ModuleType::Js | ModuleType::Jsx | ModuleType::Ts | ModuleType::Tsx)
    }

    /// The module type of a file extension; an unknown extension becomes a custom type.
    pub fn from_ext(ext: &str) -> (r: Self)
        ensures
            r@ == type_of_ext(ext@),
    {
        proof {
            reveal_strlit("js");
            reveal_strlit("jsx");
            reveal_strlit("ts");
            reveal_strlit("tsx");
            reveal_strlit("css");
            reveal_strlit("html");
            assert("js"@ =~= seq!['j', 's']);
            assert("jsx"@ =~= seq!['j', 's', 'x']);
            assert("ts"@ =~= seq!['t', 's']);
            assert("tsx"@ =~= seq!['t', 's', 'x']);
            assert("css"@ =~= seq!['c', 's', 's']);
            assert("html"@ =~= seq!['h', 't', 'm', 'l']);
        }
        if str_eq(ext, "js") {
            ModuleType::Js
        } else if str_eq(ext, "jsx") {
            ModuleType::Jsx
        } else if str_eq(ext, "ts") {
            ModuleType::Ts
        } else if str_eq(ext, "tsx") {
            ModuleType::Tsx
        } else if str_eq(ext, "css") {
            ModuleType::Css
        } else if str_eq(ext, "html") {
            ModuleType::Html
        } else {
            ModuleType::Custom(String::from_str(ext))
        }
    }
}

/// How a script module shares its bindings.
#[derive(Clone, Debug)]
pub enum ModuleSystem {
    EsModule,
    CommonJs,
    /// Both forms mixed.
    Hybrid,
    Custom(String),
}

impl PartialEq for ModuleSystem {
    fn eq(&self, o: &ModuleSystem) -> (r: bool) {
        match (self, o) {
            (ModuleSystem::EsModule, ModuleSystem::EsModule) => true,
            (ModuleSystem::CommonJs, ModuleSystem::CommonJs) => true,
            (ModuleSystem::Hybrid, ModuleSystem::Hybrid) => true,
            (ModuleSystem::Custom(a), ModuleSystem::Custom(b)) => str_eq(a.as_str(), b.as_str()),
            _ => false,
        }
    }
}

impl vstd::std_specs::cmp::PartialEqSpecImpl for ModuleSystem {
    open spec fn obeys_eq_spec() -> bool {
        true
    }

    open spec fn eq_spec(&self, o: &ModuleSystem) -> bool {
        match (self, o) {
            (ModuleSystem::EsModule, ModuleSystem::EsModule) => true,
            (ModuleSystem::CommonJs, ModuleSystem::CommonJs) => true,
            (ModuleSystem::Hybrid, ModuleSystem::Hybrid) => true,
            (ModuleSystem::Custom(a), ModuleSystem::Custom(b)) => a@ == b@,
            _ => false,
        }
    }
}

impl Eq for ModuleSystem {
}

/// Whether a path is absolute: it starts with '/'.
pub open spec fn is_absolute(p: Seq<char>) -> bool {
    p.len() > 0 && p[0] == '/'
}

/// The relative path of a module resolved at `resolved_path` in a project
/// rooted at `cwd`.
pub open spec fn relative_path_of(resolved_path: Seq<char>, cwd: Seq<char>) -> Seq<char> {
    if is_absolute(resolved_path) {
        relative_spec(cwd, resolved_path)
    } else {
        resolved_path
    }
}

/// The identity of a module: its path relative to the project root and its
/// query text.
#[derive(Clone, Debug, Hash, Ord)]
pub struct ModuleId {
    relative_path: String,
    query_string: String,
}

impl PartialEq for ModuleId {
    fn eq(&self, o: &ModuleId) -> (r: bool) {
        str_eq(self.relative_path.as_str(), o.relative_path.as_str())
            && str_eq(self.query_string.as_str(), o.query_string.as_str())
    }
}

impl vstd::std_specs::cmp::PartialEqSpecImpl for ModuleId {
    open spec fn obeys_eq_spec() -> bool {
        true
    }

    open spec fn eq_spec(&self, o: &ModuleId) -> bool {
        self.path_view() == o.path_view() && self.query_view() == o.query_view()
    }
}

impl Eq for ModuleId {
}

/// Texts compared character by character.
pub open spec fn cmp_chars(a: Seq<char>, b: Seq<char>) -> Ordering {
    if chars_lt(a, b) {
        Ordering::Less
    } else if a == b {
        Ordering::Equal
    } else {
        Ordering::Greater
    }
}

/// Compares two texts character by character.
pub fn cmp_text(a: &str, b: &str) -> (r: Ordering)
    ensures
        r == cmp_chars(a@, b@),
        (r == Ordering::Equal) == (a@ == b@),
{
    proof {
        lemma_lt_irrefl(a@);
    }
    if chars_less(a, b) {
        Ordering::Less
    } else if str_eq(a, b) {
        Ordering::Equal
    } else {
        Ordering::Greater
    }
}

impl PartialOrd for ModuleId {
    /// Identities ordered by relative path, then by query text.
    fn partial_cmp(&self, o: &ModuleId) -> (r: Option<Ordering>) {
        let by_path = cmp_text(self.relative_path.as_str(), o.relative_path.as_str());
        match by_path {
            Ordering::Equal => Some(cmp_text(self.query_string.as_str(), o.query_string.as_str())),
            _ => Some(by_path),
        }
    }
}

impl vstd::std_specs::cmp::PartialOrdSpecImpl for ModuleId {
    open spec fn obeys_partial_cmp_spec() -> bool {
        true
    }

    open spec fn partial_cmp_spec(&self, o: &ModuleId) -> Option<Ordering> {
        if self.path_view() != o.path_view() {
            Some(cmp_chars(self.path_view(), o.path_view()))
        } else {
            Some(cmp_chars(self.query_view(), o.query_view()))
        }
    }
}

impl ModuleId {
    /// The relative path, by its characters.
    pub closed spec fn path_view(&self) -> Seq<char> {
        self.relative_path@
    }

    /// The query text, by its characters.
    pub closed spec fn query_view(&self) -> Seq<char> {
        self.query_string@
    }

    /// The development form: the relative path followed by the query text.
    pub open spec fn dev_view(&self) -> Seq<char> {
        self.path_view() + self.query_view()
    }

    /// The production form: the digest of the development form in hexadecimal.
    pub open spec fn prod_view(&self) -> Seq<char> {
        hex_spec(blake2b_32_of(self.dev_view()))
    }

    pub open spec fn id_view(&self, mode: Mode) -> Seq<char> {
        match mode {
            Mode::Development => self.dev_view(),
            Mode::Production => self.prod_view(),
        }
    }

    /// The identity of the module resolved at `resolved_path` with the query
    /// pairs `query`: an absolute path is made relative to `cwd`; the query is
    /// written in its canonical order.
    pub fn new(resolved_path: &str, query: &Vec<(String, String)>, cwd: &str) -> (r: Self)
        ensures
            r.path_view() == relative_path_of(resolved_path@, cwd@),
            r.query_view() == query_text(sort_spec(pair_views(query@))),
    {
        let absolute = resolved_path.unicode_len() > 0 && resolved_path.get_char(0) == '/';
        let relative_path = if absolute {
            relative(cwd, resolved_path)
        } else {
            String::from_str(resolved_path)
        };
        let query_string = stringify_query(query);
        ModuleId { relative_path, query_string }
    }

    /// The development or the production form of the identity.
    pub fn id(&self, mode: Mode) -> (r: String)
        ensures
            r@ == self.id_view(mode),
            mode == Mode::Production ==> r@.len() == 8,
    {
        match mode {
            Mode::Development => self.to_string(),
            Mode::Production => self.hash(),
        }
    }

    pub fn relative_path(&self) -> (r: &str)
        ensures
            r@ == self.path_view(),
    {
        self.relative_path.as_str()
    }

    pub fn query_string(&self) -> (r: &str)
        ensures
            r@ == self.query_view(),
    {
        self.query_string.as_str()
    }

    /// The path of the module with the relative path joined back onto `root`.
    pub fn resolved_path(&self, root: &str) -> (r: String)
        ensures
            r@ == logical_path_of(self.path_view(), root@),
            is_clean_abs(root@) && logical(components(root@), components(self.path_view())) is Some
                ==> r@ == abs_join(logical(components(root@), components(self.path_view()))->0),
    {
        logical_join(self.relative_path.as_str(), root)
    }

    /// The production form: the four-byte digest of the development form, in hexadecimal.
    pub fn hash(&self) -> (r: String)
        ensures
            r@ == self.prod_view(),
            r@.len() == 8,
    {
        let dev = self.to_string();
        let digest = blake2b_32(dev.as_str());
        to_hex(&digest)
    }

    /// The development form.
    pub fn to_string(&self) -> (r: String)
        ensures
            r@ == self.dev_view(),
    {
        let mut s = String::from_str(self.relative_path.as_str());
        s.append(self.query_string.as_str());
        s
    }

    /// Reads an identity written as "path?query": the text before the first '?'
    /// is the path, all that follows it the query text.
    pub fn from_str(rp: &str) -> (r: Self)
        ensures
            (exists|i: int| 0 <= i < rp@.len() && rp@[i] == '?') ==> {
                let k = first_question(rp@);
                &&& r.path_view() == rp@.subrange(0, k)
                &&& r.query_view() == rp@.subrange(k + 1, rp@.len() as int)
            },
            !(exists|i: int| 0 <= i < rp@.len() && rp@[i] == '?') ==> {
                &&& r.path_view() == rp@
                &&& r.query_view() == Seq::<char>::empty()
            },
    {
        let n = rp.unicode_len();
        let mut i: usize = 0;
        while i < n
            invariant
                n == rp@.len(),
                i <= n,
                forall|j: int| 0 <= j < i ==> rp@[j] != '?',
            decreases n - i,
        {
            if rp.get_char(i) == '?' {
                proof {
                    lemma_first_question(rp@, i as int);
                }
                let relative_path = String::from_str(rp.substring_char(0, i));
                let query_string = String::from_str(rp.substring_char(i + 1, n));
                return ModuleId { relative_path, query_string };
            }
            i = i + 1;
        }
        ModuleId { relative_path: String::from_str(rp), query_string: String::new() }
    }
}

/// The index of the first '?' in a text, or its length where it has none.
pub open spec fn first_question(s: Seq<char>) -> int
    decreases s.len(),
{
    if s.len() == 0 {
        0
    } else if s[0] == '?' {
        0
    } else {
        1 + first_question(s.drop_first())
    }
}

proof fn lemma_first_question(s: Seq<char>, i: int)
    requires
        0 <= i < s.len(),
        s[i] == '?',
        forall|j: int| 0 <= j < i ==> s[j] != '?',
    ensures
        first_question(s) == i,
    decreases i,
{
    if i > 0 {
        assert(s[0] != '?');
        assert forall|j: int| 0 <= j < i - 1 implies s.drop_first()[j] != '?' by {
            assert(s[j + 1] != '?');
        }
        lemma_first_question(s.drop_first(), i - 1);
    }
}

/// Joining the relative path of an identity built from the plain absolute
/// path `p` under the root `root` back onto `root` gives `p` again, where the
/// two share their first component.
pub proof fn lemma_resolved_path_round_trip(p: Seq<char>, root: Seq<char>, id: ModuleId)
    requires
        is_clean_abs(p),
        is_clean_abs(root),
        common_len(components(root), components(p)) >= 1,
        id.path_view() == relative_path_of(p, root),
    ensures
        logical(components(root), components(id.path_view())) == Some(components(p)),
        abs_join(logical(components(root), components(id.path_view()))->0) == p,
{
    assert(components(p).len() >= 1);
    assert(is_absolute(p)) by {
        let cs = components(p);
        assert(p == abs_join(cs));
        assert(abs_join(cs) =~= seq!['/'] + cs[0] + abs_join(cs.drop_first()));
    }
    lemma_relative_then_logical(p, root);
}

/// The production form depends on the development form alone: identities
/// with the same development form have the same production form.
pub proof fn lemma_production_follows_development(a: ModuleId, b: ModuleId)
    requires
        a.dev_view() == b.dev_view(),
    ensures
        a.id_view(Mode::Production) == b.id_view(Mode::Production),
{
}

/// Two identities with the same relative path and different query texts have
/// different development forms.
pub proof fn lemma_query_changes_development(a: ModuleId, b: ModuleId)
    requires
        a.path_view() == b.path_view(),
        a.query_view() != b.query_view(),
    ensures
        a.id_view(Mode::Development) != b.id_view(Mode::Development),
{
    let n = a.path_view().len() as int;
    assert(a.dev_view().subrange(n, a.dev_view().len() as int) =~= a.query_view());
    assert(b.dev_view().subrange(n, b.dev_view().len() as int) =~= b.query_view());
}

#[verifier::external_type_specification]
#[verifier::external_body]
pub struct ExScriptAst(SwcModule);

#[verifier::external_type_specification]
#[verifier::external_body]
pub struct ExStylesheet(swc_css_ast::Stylesheet);

#[verifier::external_type_specification]
#[verifier::external_body]
pub struct ExDocument(swc_html_ast::Document);

/// What the script stage keeps of a module: its syntax tree, the two scope
/// marks given to its top-level and unresolved bindings, and how it shares its
/// bindings.
pub struct ScriptModuleMetaData {
    pub ast: SwcModule,
    pub top_level_mark: u32,
    pub unresolved_mark: u32,
    pub module_system: ModuleSystem,
}

pub struct CssModuleMetaData {
    pub ast: swc_css_ast::Stylesheet,
}

pub struct HtmlModuleMetaData {
    pub ast: swc_html_ast::Document,
}

/// A value that a plugin outside the core keeps with a module, in its
/// archived form, under the stable name of its type.
#[derive(Clone, Debug)]
pub struct CustomMetaValue {
    pub archive_name: String,
    pub bytes: Vec<u8>,
}

/// A value that a plugin outside the core keeps with a module.
pub trait CustomModuleMetaData {
    /// The stable name under which values of the type are archived.
    fn archive_name(&self) -> String;
}

/// The value a module holds before any plugin gives it one.
pub struct EmptyModuleMetaData;

impl CustomModuleMetaData for EmptyModuleMetaData {
    fn archive_name(&self) -> String {
        String::from_str("EmptyModuleMetaData")
    }
}

/// The data of a module, one variant active at a time.
pub enum ModuleMetaData {
    Script(ScriptModuleMetaData),
    Css(CssModuleMetaData),
    Html(HtmlModuleMetaData),
    Custom(CustomMetaValue),
}

impl ModuleMetaData {
    pub fn as_script(&self) -> (r: &ScriptModuleMetaData)
        requires
            self is Script,
        ensures
            *r == self->Script_0,
    {
        match self {
            ModuleMetaData::Script(script) => script,
            _ => vstd::pervasive::unreached(),
        }
    }

    pub fn as_script_mut(&mut self) -> (r: &mut ScriptModuleMetaData)
        requires
            (*old(self)) is Script,
        ensures
            *r == (*old(self))->Script_0,
            *final(self) == ModuleMetaData::Script(*final(r)),
    {
        match self {
            ModuleMetaData::Script(script) => script,
            _ => vstd::pervasive::unreached(),
        }
    }

    pub fn as_css(&self) -> (r: &CssModuleMetaData)
        requires
            self is Css,
        ensures
            *r == self->Css_0,
    {
        match self {
            ModuleMetaData::Css(css) => css,
            _ => vstd::pervasive::unreached(),
        }
    }

    pub fn as_css_mut(&mut self) -> (r: &mut CssModuleMetaData)
        requires
            (*old(self)) is Css,
        ensures
            *r == (*old(self))->Css_0,
            *final(self) == ModuleMetaData::Css(*final(r)),
    {
        match self {
            ModuleMetaData::Css(css) => css,
            _ => vstd::pervasive::unreached(),
        }
    }

    pub fn as_html(&self) -> (r: &HtmlModuleMetaData)
        requires
            self is Html,
        ensures
            *r == self->Html_0,
    {
        match self {
            ModuleMetaData::Html(html) => html,
            _ => vstd::pervasive::unreached(),
        }
    }

    pub fn as_html_mut(&mut self) -> (r: &mut HtmlModuleMetaData)
        requires
            (*old(self)) is Html,
        ensures
            *r == (*old(self))->Html_0,
            *final(self) == ModuleMetaData::Html(*final(r)),
    {
        match self {
            ModuleMetaData::Html(html) => html,
            _ => vstd::pervasive::unreached(),
        }
    }

    /// The archived value of a custom variant, read as the type named
    /// `archive_name`: the variant and the name must match.
    pub fn as_custom(&self, archive_name: &str) -> (r: &Vec<u8>)
        requires
            self is Custom,
            self->Custom_0.archive_name@ == archive_name@,
        ensures
            r@ == self->Custom_0.bytes@,
    {
        match self {
            ModuleMetaData::Custom(custom) => &custom.bytes,
            _ => vstd::pervasive::unreached(),
        }
    }

    pub fn as_custom_mut(&mut self, archive_name: &str) -> (r: &mut Vec<u8>)
        requires
            (*old(self)) is Custom,
            (*old(self))->Custom_0.archive_name@ == archive_name@,
        ensures
            r@ == (*old(self))->Custom_0.bytes@,
            (*final(self)) is Custom,
            (*final(self))->Custom_0.archive_name == (*old(self))->Custom_0.archive_name,
            (*final(self))->Custom_0.bytes == *final(r),
    {
        match self {
            ModuleMetaData::Custom(custom) => &mut custom.bytes,
            _ => vstd::pervasive::unreached(),
        }
    }

    /// Whether the value is a custom one archived under `archive_name`.
    pub fn is_custom_of(&self, archive_name: &str) -> (r: bool)
        ensures
            r == (self is Custom && self->Custom_0.archive_name@ == archive_name@),
    {
        match self {
            ModuleMetaData::Custom(custom) => str_eq(custom.archive_name.as_str(), archive_name),
            _ => false,
        }
    }
}

/// The identities of the groups in a set, by key.
pub uninterp spec fn group_set_view(s: ModuleGroupSet) -> Set<(Seq<char>, Seq<char>)>;

/// A set of group identities, held in hashbrown's `HashSet`. Identities are
/// equal exactly when their keys are, and their hash is that of the two texts,
/// so the set holds one identity per key.
#[verifier::external_body]
pub struct ModuleGroupSet {
    set: hashbrown::HashSet<ModuleId>,
}

impl ModuleGroupSet {
    /// Relies on hashbrown's `HashSet::new`: an empty set.
    #[verifier::external_body]
    pub(crate) fn new() -> (r: Self)
        ensures
            group_set_view(r) == Set::<(Seq<char>, Seq<char>)>::empty(),
    {
        ModuleGroupSet { set: hashbrown::HashSet::new() }
    }

    /// Relies on hashbrown's `HashSet::insert`: afterwards the set holds the
    /// identity, and nothing else changed.
    #[verifier::external_body]
    pub(crate) fn insert(&mut self, group: ModuleId)
        ensures
            group_set_view(*final(self)) == group_set_view(*old(self)).insert(id_key(group)),
    {
        self.set.insert(group);
    }

    /// Relies on hashbrown's `HashSet::contains`: whether an equal identity is held.
    #[verifier::external_body]
    pub(crate) fn contains(&self, group: &ModuleId) -> (r: bool)
        ensures
            r == group_set_view(*self).contains(id_key(*group)),
    {
        self.set.contains(group)
    }

    /// Relies on hashbrown's `HashSet::len`: the number of identities held.
    #[verifier::external_body]
    pub(crate) fn len(&self) -> (r: usize)
        ensures
            r == group_set_view(*self).len(),
    {
        self.set.len()
    }
}

/// The record of one compilation unit.
pub struct Module {
    pub id: ModuleId,
    pub module_type: ModuleType,
    /// The groups the module belongs to.
    pub module_groups: ModuleGroupSet,
    /// The output unit the module is assigned to.
    pub resource_pot: Option<String>,
    pub meta: ModuleMetaData,
    pub side_effects: bool,
    /// The names of the source map transforms applied to the module, in order.
    pub source_map_chain: Vec<String>,
    pub external: bool,
}

pub open spec fn id_key(id: ModuleId) -> (Seq<char>, Seq<char>) {
    (id.path_view(), id.query_view())
}

pub open spec fn unknown_name() -> Seq<char> {
    seq!['u', 'n', 'k', 'n', 'o', 'w', 'n']
}

pub open spec fn empty_meta_name() -> Seq<char> {
    seq!['E', 'm', 'p', 't', 'y', 'M', 'o', 'd', 'u', 'l', 'e', 'M', 'e', 't', 'a', 'D', 'a', 't', 'a']
}

impl Module {
    /// The groups of the module, by identity.
    pub open spec fn groups_view(&self) -> Set<(Seq<char>, Seq<char>)> {
        group_set_view(self.module_groups)
    }

    /// A module as the load stage first makes it: of an unknown custom type,
    /// with empty custom data, in no group and no output unit, without side
    /// effects, transforms or the external mark.
    pub fn new(id: ModuleId) -> (r: Self)
        ensures
            r.id == id,
            r.module_type@ == ModuleTypeView::Custom(unknown_name()),
            r.meta is Custom,
            r.meta->Custom_0.archive_name@ == empty_meta_name(),
            r.meta->Custom_0.bytes@.len() == 0,
            r.groups_view() == Set::<(Seq<char>, Seq<char>)>::empty(),
            r.resource_pot is None,
            !r.side_effects,
            r.source_map_chain@.len() == 0,
            !r.external,
    {
        proof {
            reveal_strlit("unknown");
            reveal_strlit("EmptyModuleMetaData");
            assert("unknown"@ =~= unknown_name());
            assert("EmptyModuleMetaData"@ =~= empty_meta_name());
        }
        Module {
            id,
            module_type: ModuleType::Custom(String::from_str("unknown")),
            meta: ModuleMetaData::Custom(
                CustomMetaValue { archive_name: String::from_str("EmptyModuleMetaData"), bytes: Vec::new() },
            ),
            module_groups: ModuleGroupSet::new(),
            resource_pot: None,
            side_effects: false,
            source_map_chain: Vec::new(),
            external: false,
        }
    }

    /// Adds the module to a group; a group it already belongs to stays once.
    pub fn add_module_group(&mut self, group: ModuleId)
        ensures
            final(self).groups_view() == old(self).groups_view().insert(id_key(group)),
            final(self).id == old(self).id,
            final(self).module_type == old(self).module_type,
            final(self).meta == old(self).meta,
            final(self).resource_pot == old(self).resource_pot,
            final(self).side_effects == old(self).side_effects,
            final(self).source_map_chain == old(self).source_map_chain,
            final(self).external == old(self).external,
    {
        self.module_groups.insert(group);
    }

    /// Whether the module belongs to a group.
    pub fn in_module_group(&self, group: &ModuleId) -> (r: bool)
        ensures
            r == self.groups_view().contains(id_key(*group)),
    {
        self.module_groups.contains(group)
    }

    /// The number of groups the module belongs to.
    pub fn module_group_count(&self) -> (r: usize)
        ensures
            r == self.groups_view().len(),
    {
        self.module_groups.len()
    }
}

/// What a plugin reports of a module besides its data.
pub struct ModuleBasicInfo {
    pub module_type: ModuleType,
    pub side_effects: bool,
    pub source_map_chain: Vec<String>,
    pub external: bool,
}

} // verus!
