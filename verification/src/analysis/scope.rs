//! Symbol tables: one scope, and the stack of scopes that the checker walks.

use vstd::prelude::*;
use vstd::string::*;
use crate::object::Type;
use crate::program::{FunctionPrototype, PrototypeView};
use crate::stdlib::{NativeFn, NativeFnView};

verus! {

/// What a name stands for: a variable of a type, or a function with a signature.
#[derive(Debug, PartialEq, Eq)]
pub enum MetaObject {
    VarType(Type),
    FnPrototype(FunctionPrototype),
}

/// The mathematical content of a symbol's meaning.
pub enum MetaObjectView {
    VarType(Type),
    FnPrototype(PrototypeView),
}

impl View for MetaObject {
    type V = MetaObjectView;

    open spec fn view(&self) -> MetaObjectView {
        match self {
            MetaObject::VarType(t) => MetaObjectView::VarType(*t),
            MetaObject::FnPrototype(p) => MetaObjectView::FnPrototype(p@),
        }
    }
}

impl Clone for MetaObject {
    fn clone(&self) -> (res: Self)
        ensures
            res@ == self@,
    {
        match self {
            MetaObject::VarType(t) => MetaObject::VarType(*t),
            MetaObject::FnPrototype(p) => MetaObject::FnPrototype(p.clone()),
        }
    }
}

#[derive(Debug, Clone, Copy, PartialEq, Eq, Structural)]
pub enum ScopeType {
    Global,
    Function,
}

/// One binding of a scope.
#[derive(Debug, PartialEq, Eq)]
pub struct Symbol {
    pub name: String,
    pub object: MetaObject,
}

/// The mathematical content of a binding.
pub struct SymbolView {
    pub name: Seq<char>,
    pub object: MetaObjectView,
}

impl View for Symbol {
    type V = SymbolView;

    open spec fn view(&self) -> SymbolView {
        SymbolView { name: self.name@, object: self.object@ }
    }
}

/// The meaning of `name` among the bindings: that of the latest binding of the name.
pub open spec fn lookup_in(store: Seq<SymbolView>, name: Seq<char>) -> Option<MetaObjectView>
    decreases store.len(),
{
    if store.len() == 0 {
        None
    } else if store.last().name == name {
        Some(store.last().object)
    } else {
        lookup_in(store.drop_last(), name)
    }
}

/// The binding that a native function's entry gives rise to.
pub open spec fn native_symbol(native: NativeFnView) -> SymbolView {
    SymbolView { name: native.name, object: MetaObjectView::FnPrototype(native.prototype) }
}

/// A scope: its kind, the type that its code must leave behind, and its bindings in
/// the order of their declaration.
#[derive(Debug, PartialEq, Eq)]
pub struct Scope {
    pub type_: ScopeType,
    pub expected_type: Type,
    pub store: Vec<Symbol>,
}

/// The mathematical content of a scope.
pub struct ScopeView {
    pub type_: ScopeType,
    pub expected_type: Type,
    pub store: Seq<SymbolView>,
}

impl ScopeView {
    /// The global scope over a table of native functions.
    pub open spec fn global(natives: Seq<NativeFnView>) -> ScopeView {
        ScopeView {
            type_: ScopeType::Global,
            expected_type: Type::Void,
            store: natives.map_values(|n: NativeFnView| native_symbol(n)),
        }
    }

    /// An empty scope.
    pub open spec fn fresh(type_: ScopeType, expected_type: Type) -> ScopeView {
        ScopeView { type_, expected_type, store: Seq::empty() }
    }

    pub open spec fn lookup(self, name: Seq<char>) -> Option<MetaObjectView> {
        lookup_in(self.store, name)
    }

    pub open spec fn is_declared(self, name: Seq<char>) -> bool {
        lookup_in(self.store, name).is_some()
    }

    /// The scope with one more binding, which hides any earlier one of the same name.
    pub open spec fn declare(self, name: Seq<char>, object: MetaObjectView) -> ScopeView {
        ScopeView { store: self.store.push(SymbolView { name, object }), ..self }
    }
}

impl View for Scope {
    type V = ScopeView;

    open spec fn view(&self) -> ScopeView {
        ScopeView {
            type_: self.type_,
            expected_type: self.expected_type,
            store: self.store@.map_values(|s: Symbol| s@),
        }
    }
}

/// The meaning that an optional symbol meaning stands for.
pub open spec fn object_view(object: Option<MetaObject>) -> Option<MetaObjectView> {
    match object {
        Some(o) => Some(o@),
        None => None,
    }
}

impl Scope {
    /// The global scope, which binds each native function to its signature.
    pub fn make_global(natives: &Vec<NativeFn>) -> (scope: Self)
        ensures
            scope@ == ScopeView::global(natives@.map_values(|n: NativeFn| n@)),
    {
        let mut store: Vec<Symbol> = Vec::new();
        let mut i: usize = 0;
        let ghost target = ScopeView::global(natives@.map_values(|n: NativeFn| n@)).store;
        while i < natives.len()
            invariant
                i <= natives@.len(),
                target == ScopeView::global(natives@.map_values(|n: NativeFn| n@)).store,
                store@.map_values(|s: Symbol| s@) == target.subrange(0, i as int),
            decreases natives@.len() - i,
        {
            let native = &natives[i];
            let ghost before = store@;
            store.push(
                Symbol {
                    name: native.name.clone(),
                    object: MetaObject::FnPrototype(native.prototype.clone()),
                },
            );
            i += 1;
            proof {
                let views = natives@.map_values(|n: NativeFn| n@);
                assert(views[i - 1] == natives@[i - 1]@);
                assert(target[i - 1] == native_symbol(views[i - 1]));
                assert(store@.last()@ == target[i - 1]);
                assert(store@.map_values(|s: Symbol| s@) =~= before.map_values(|s: Symbol| s@).push(
                    store@.last()@,
                ));
                assert(store@.map_values(|s: Symbol| s@) =~= target.subrange(0, i as int));
            }
        }
        assert(store@.map_values(|s: Symbol| s@) =~= target);
        Self { type_: ScopeType::Global, expected_type: Type::Void, store }
    }

    /// An empty scope of the given kind.
    pub fn make(type_: ScopeType, expected_type: Type) -> (scope: Self)
        ensures
            scope@ == ScopeView::fresh(type_, expected_type),
    {
        let scope = Self { type_, expected_type, store: Vec::new() };
        assert(scope@.store =~= Seq::<SymbolView>::empty());
        scope
    }

    /// Binds `name`; an earlier binding of the name in this scope is hidden.
    pub fn declare(&mut self, name: String, val: MetaObject)
        ensures
            final(self)@ == old(self)@.declare(name@, val@),
    {
        self.store.push(Symbol { name, object: val });
        assert(self@.store =~= old(self)@.declare(name@, val@).store);
    }

    /// Whether this scope binds `name`.
    pub fn is_declared(&self, name: &str) -> (declared: bool)
        ensures
            declared == self@.is_declared(name@),
    {
        self.lookup(name).is_some()
    }

    /// What `name` stands for in this scope.
    pub fn lookup(&self, name: &str) -> (object: Option<MetaObject>)
        ensures
            object_view(object) == self@.lookup(name@),
    {
        let key = String::from_str(name);
        self.lookup_key(&key)
    }

    /// What the name `key` stands for in this scope.
    pub fn lookup_key(&self, key: &String) -> (object: Option<MetaObject>)
        ensures
            object_view(object) == self@.lookup(key@),
    {
        let ghost store = self@.store;
        let mut i: usize = self.store.len();
        assert(store.subrange(0, i as int) =~= store);
        while i > 0
            invariant
                i <= self.store@.len(),
                store == self@.store,
                lookup_in(store, key@) == lookup_in(store.subrange(0, i as int), key@),
            decreases i,
        {
            i -= 1;
            let ghost prefix = store.subrange(0, i + 1);
            assert(prefix.last() == self.store@[i as int]@);
            assert(prefix.drop_last() =~= store.subrange(0, i as int));
            if self.store[i].name == *key {
                return Some(self.store[i].object.clone());
            }
        }
        assert(store.subrange(0, 0).len() == 0);
        None
    }
}

/// The meaning of `name` in a stack of scopes: that of the innermost scope that binds it.
pub open spec fn lookup_scopes(scopes: Seq<ScopeView>, name: Seq<char>) -> Option<MetaObjectView>
    decreases scopes.len(),
{
    if scopes.len() == 0 {
        None
    } else {
        match scopes.last().lookup(name) {
            Some(object) => Some(object),
            None => lookup_scopes(scopes.drop_last(), name),
        }
    }
}

/// The scope stack with a binding added to its innermost scope.
pub open spec fn declare_scopes(
    scopes: Seq<ScopeView>,
    name: Seq<char>,
    object: MetaObjectView,
) -> Seq<ScopeView>
    recommends
        scopes.len() > 0,
{
    scopes.update(scopes.len() - 1, scopes.last().declare(name, object))
}

/// The scopes that the checker is in, outermost first. There is always a global scope.
#[derive(Debug, PartialEq, Eq)]
pub struct Context {
    pub scopes: Vec<Scope>,
}

impl View for Context {
    type V = Seq<ScopeView>;

    open spec fn view(&self) -> Seq<ScopeView> {
        self.scopes@.map_values(|s: Scope| s@)
    }
}

impl Context {
    /// Whether the context has its global scope.
    pub open spec fn wf(&self) -> bool {
        self.scopes@.len() > 0
    }

    /// The context that holds only the global scope over the native functions.
    pub fn make_global(natives: &Vec<NativeFn>) -> (context: Self)
        ensures
            context.wf(),
            context@ == seq![ScopeView::global(natives@.map_values(|n: NativeFn| n@))],
    {
        let mut scopes: Vec<Scope> = Vec::new();
        scopes.push(Scope::make_global(natives));
        let context = Self { scopes };
        assert(context@ =~= seq![ScopeView::global(natives@.map_values(|n: NativeFn| n@))]);
        context
    }

    /// Binds `name` in the innermost scope.
    pub fn declare(&mut self, name: String, val: MetaObject)
        requires
            old(self).wf(),
        ensures
            final(self).wf(),
            final(self)@ == declare_scopes(old(self)@, name@, val@),
    {
        let top = self.scopes.len() - 1;
        self.scopes[top].declare(name, val);
        assert(self@ =~= declare_scopes(old(self)@, name@, val@));
    }

    /// Whether the innermost scope binds the name.
    pub fn is_declared(&self, name: &String) -> (declared: bool)
        requires
            self.wf(),
        ensures
            declared == self@.last().is_declared(name@),
    {
        self.lookup_locally(name).is_some()
    }

    /// What the name stands for in the innermost scope.
    pub fn lookup_locally(&self, name: &String) -> (object: Option<MetaObject>)
        requires
            self.wf(),
        ensures
            object_view(object) == self@.last().lookup(name@),
    {
        self.scopes[self.scopes.len() - 1].lookup_key(name)
    }

    /// What the name stands for, looking from the innermost scope outward.
    pub fn lookup(&self, name: &String) -> (object: Option<MetaObject>)
        ensures
            object_view(object) == lookup_scopes(self@, name@),
    {
        let ghost scopes = self@;
        let mut i: usize = self.scopes.len();
        assert(scopes.subrange(0, i as int) =~= scopes);
        while i > 0
            invariant
                i <= self.scopes@.len(),
                scopes == self@,
                lookup_scopes(scopes, name@) == lookup_scopes(scopes.subrange(0, i as int), name@),
            decreases i,
        {
            i -= 1;
            let ghost prefix = scopes.subrange(0, i + 1);
            assert(prefix.last() == self.scopes@[i as int]@);
            assert(prefix.drop_last() =~= scopes.subrange(0, i as int));
            let found = self.scopes[i].lookup_key(name);
            if found.is_some() {
                return found;
            }
        }
        assert(scopes.subrange(0, 0).len() == 0);
        None
    }

    /// Enters a new, empty scope.
    pub fn enter_scope(&mut self, type_: ScopeType, expected_type: Type)
        ensures
            final(self).wf(),
            final(self)@ == old(self)@.push(ScopeView::fresh(type_, expected_type)),
    {
        self.scopes.push(Scope::make(type_, expected_type));
        assert(self@ =~= old(self)@.push(ScopeView::fresh(type_, expected_type)));
    }

    /// Leaves the innermost scope. The global scope cannot be left.
    pub fn leave_scope(&mut self)
        requires
            old(self)@.len() > 1,
        ensures
            final(self).wf(),
            final(self)@ == old(self)@.drop_last(),
    {
        self.scopes.pop();
        assert(self@ =~= old(self)@.drop_last());
    }

    /// The kind of the innermost scope.
    pub fn current_type(&self) -> (type_: ScopeType)
        requires
            self.wf(),
        ensures
            type_ == self@.last().type_,
    {
        self.scopes[self.scopes.len() - 1].type_
    }

    /// The type that the code of the innermost scope must leave behind.
    pub fn expected_type(&self) -> (expected: Type)
        requires
            self.wf(),
        ensures
            expected == self@.last().expected_type,
    {
        self.scopes[self.scopes.len() - 1].expected_type
    }
}

} // verus!
