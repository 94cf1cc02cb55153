use vstd::prelude::*;
use crate::module::{is_script_view, type_of_ext, ModuleSystem, ModuleType, ModuleTypeView};

verus! {

/// The index of the last '.' or '/' in a text, or -1 where it has neither.
pub open spec fn last_mark(s: Seq<char>) -> int
    decreases s.len(),
{
    if s.len() == 0 {
        -1
    } else if s.last() == '.' || s.last() == '/' {
        s.len() - 1
    } else {
        last_mark(s.drop_last())
    }
}

/// The extension of a path's file name: what follows its last '.', where that
/// '.' is not the name's first character; empty where there is none.
pub open spec fn ext_of(s: Seq<char>) -> Seq<char> {
    let i = last_mark(s);
    if i >= 1 && s[i] == '.' && s[i - 1] != '/' {
        s.subrange(i + 1, s.len() as int)
    } else {
        seq![]
    }
}

/// The extension of a path's file name.
pub fn extension(s: &str) -> (r: String)
    ensures
        r@ == ext_of(s@),
{
    let n = s.unicode_len();
    let mut i: usize = n;
    assert(s@.subrange(0, n as int) =~= s@);
    while i > 0
        invariant
            n == s@.len(),
            i <= n,
            forall|j: int| i <= j < n ==> s@[j] != '.' && s@[j] != '/',
            last_mark(s@) == last_mark(s@.subrange(0, i as int)),
        decreases i,
    {
        let c = s.get_char(i - 1);
        if c == '.' || c == '/' {
            assert(last_mark(s@.subrange(0, i as int)) == i - 1);
            if c == '.' && i >= 2 && s.get_char(i - 2) != '/' {
                return String::from_str(s.substring_char(i, n));
            }
            return String::new();
        }
        assert(s@.subrange(0, i as int).drop_last() =~= s@.subrange(0, i - 1));
        i = i - 1;
    }
    String::new()
}

/// The module type of a path, from its extension.
pub fn module_type_from_id(id: &str) -> (r: ModuleType)
    ensures
        r@ == type_of_ext(ext_of(id@)),
{
    let ext = extension(id);
    ModuleType::from_ext(ext.as_str())
}

/// How a parsed script module shares its bindings, from whether each of its
/// top-level items is an import or export declaration: an ES module where any
/// is, CommonJS otherwise.
pub fn module_system_of(item_is_module_decl: &Vec<bool>) -> (r: ModuleSystem)
    ensures
        (exists|i: int| 0 <= i < item_is_module_decl@.len() && item_is_module_decl@[i]) ==> r is EsModule,
        !(exists|i: int| 0 <= i < item_is_module_decl@.len() && item_is_module_decl@[i]) ==> r is CommonJs,
{
    let mut i: usize = 0;
    while i < item_is_module_decl.len()
        invariant
            i <= item_is_module_decl@.len(),
            forall|j: int| 0 <= j < i ==> !item_is_module_decl@[j],
        decreases item_is_module_decl.len() - i,
    {
        if item_is_module_decl[i] {
            return ModuleSystem::EsModule;
        }
        i = i + 1;
    }
    ModuleSystem::CommonJs
}

/// A syntax rewrite applied to a script module's tree.
#[derive(PartialEq, Eq, Structural, Clone, Copy, Debug)]
pub enum ScriptTransform {
    /// Removes type annotations.
    StripTypes,
    /// Removes type annotations from a tree that holds JSX.
    StripTypesWithJsx,
    /// Rewrites JSX into plain calls.
    React,
}

/// The rewrites applied, in order, to a script module: type annotations are
/// stripped from typed kinds, and JSX is rewritten into plain calls.
pub open spec fn transforms_spec(t: ModuleTypeView) -> Seq<ScriptTransform> {
    match t {
        ModuleTypeView::Ts => seq![ScriptTransform::StripTypes],
        ModuleTypeView::Jsx => seq![ScriptTransform::React],
        ModuleTypeView::Tsx => seq![ScriptTransform::StripTypesWithJsx, ScriptTransform::React],
        _ => seq![],
    }
}

/// The kind of output an output unit is emitted as.
#[derive(PartialEq, Eq, Structural, Clone, Copy, Debug)]
pub enum ResourcePotType {
    Js,
    Css,
    Html,
    Asset,
}

/// The path with every "../" taken out, read from left to right.
pub open spec fn strip_parent_refs(s: Seq<char>) -> Seq<char>
    decreases s.len(),
{
    if s.len() >= 3 && s[0] == '.' && s[1] == '.' && s[2] == '/' {
        strip_parent_refs(s.subrange(3, s.len() as int))
    } else if s.len() == 0 {
        seq![]
    } else {
        seq![s[0]] + strip_parent_refs(s.drop_first())
    }
}

/// The script plugin: loads, parses, analyses and emits script modules.
pub struct FarmPluginScript {}

impl FarmPluginScript {
    pub fn new() -> (r: Self) {
        FarmPluginScript {}
    }

    pub fn name(&self) -> (r: &'static str)
        ensures
            r@ == seq!['F', 'a', 'r', 'm', 'P', 'l', 'u', 'g', 'i', 'n', 'S', 'c', 'r', 'i', 'p', 't'],
    {
        proof {
            reveal_strlit("FarmPluginScript");
        }
        let r = "FarmPluginScript";
        assert(r@ =~= seq!['F', 'a', 'r', 'm', 'P', 'l', 'u', 'g', 'i', 'n', 'S', 'c', 'r', 'i', 'p', 't']);
        r
    }

    /// The load hook's decision: the module type of a script path, which the
    /// plugin then reads; `None` for any other path, which it leaves to the
    /// next plugin.
    pub fn load_module_type(&self, resolved_path: &str) -> (r: Option<ModuleType>)
        ensures
            is_script_view(type_of_ext(ext_of(resolved_path@))) ==> (r matches Some(t) && t@ == type_of_ext(ext_of(resolved_path@))),
            !is_script_view(type_of_ext(ext_of(resolved_path@))) ==> r is None,
    {
        let module_type = module_type_from_id(resolved_path);
        if module_type.is_script() {
            Some(module_type)
        } else {
            None
        }
    }

    /// Whether the parse and dependency hooks take a module of this type.
    pub fn handles(&self, module_type: &ModuleType) -> (r: bool)
        ensures
            r == is_script_view(module_type@),
    {
        module_type.is_script()
    }

    /// The rewrites the process hook applies to a module, in order: type
    /// annotations are stripped from typed kinds, then JSX, typed or not, is
    /// rewritten into plain calls. Other kinds are left as they are.
    pub fn transforms(&self, module_type: &ModuleType) -> (r: Vec<ScriptTransform>)
        ensures
            r@ == transforms_spec(module_type@),
            r@.len() > 0 ==> is_script_view(module_type@),
            r@.contains(ScriptTransform::React) <==> (module_type@ is Jsx || module_type@ is Tsx),
    {
        let mut r: Vec<ScriptTransform> = Vec::new();
        match module_type {
            ModuleType::Ts => {
                r.push(ScriptTransform::StripTypes);
            },
            ModuleType::Jsx => {
                r.push(ScriptTransform::React);
            },
            ModuleType::Tsx => {
                r.push(ScriptTransform::StripTypesWithJsx);
                r.push(ScriptTransform::React);
            },
            _ => {},
        }
        assert(r@ =~= transforms_spec(module_type@));
        assert(r@.contains(ScriptTransform::React) ==> (module_type@ is Jsx || module_type@ is Tsx));
        assert((module_type@ is Jsx) ==> r@[0] == ScriptTransform::React);
        assert((module_type@ is Tsx) ==> r@[1] == ScriptTransform::React);
        r
    }

    /// Whether the plugin emits the bytes of an output unit of this kind:
    /// only of a script unit; any other it leaves to the next plugin.
    pub fn emits(&self, kind: ResourcePotType) -> (r: bool)
        ensures
            r == (kind == ResourcePotType::Js),
    {
        matches!(kind, ResourcePotType::Js)
    }

    /// The name of the file emitted for a script output unit: its id with
    /// every "../" taken out, and ".js".
    pub fn resource_name(&self, pot_id: &str) -> (r: String)
        ensures
            r@ == strip_parent_refs(pot_id@) + seq!['.', 'j', 's'],
    {
        let n = pot_id.unicode_len();
        let mut out = String::new();
        let mut i: usize = 0;
        assert(pot_id@.subrange(0, n as int) =~= pot_id@);
        while i < n
            invariant
                n == pot_id@.len(),
                i <= n,
                out@ + strip_parent_refs(pot_id@.subrange(i as int, n as int)) == strip_parent_refs(pot_id@),
            decreases n - i,
        {
            let ghost rest = pot_id@.subrange(i as int, n as int);
            if n - i >= 3 && pot_id.get_char(i) == '.' && pot_id.get_char(i + 1) == '.' && pot_id.get_char(i + 2) == '/' {
                assert(rest.subrange(3, rest.len() as int) =~= pot_id@.subrange(i + 3, n as int));
                i = i + 3;
            } else {
                let piece = pot_id.substring_char(i, i + 1);
                assert(rest.drop_first() =~= pot_id@.subrange(i + 1, n as int));
                assert(piece@ =~= seq![rest[0]]);
                let ghost before = out@;
                out.append(piece);
                assert(before + (seq![rest[0]] + strip_parent_refs(rest.drop_first()))
                    =~= out@ + strip_parent_refs(rest.drop_first()));
                i = i + 1;
            }
        }
        assert(out@ + seq![] =~= out@);
        proof {
            reveal_strlit(".js");
        }
        out.append(".js");
        assert(".js"@ =~= seq!['.', 'j', 's']);
        out
    }
}

} // verus!
