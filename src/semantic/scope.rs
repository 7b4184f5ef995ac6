//! Block-indexed symbol tables with a parent chain.
//!
//! Each block gets the next free identifier, so a block's parent, created
//! before it, always has a smaller one; resolution walks the chain of
//! parents from a block towards the global block.
use crate::ast::{BType, FuncType};
use crate::error::{Error, SemanticError};
use vstd::prelude::*;

verus! {

#[derive(Debug)]
pub enum SymbolKind {
    /// A constant or variable of this type.
    Val(BType),
    /// A function: return type and parameter types.
    Func(FuncType, Vec<BType>),
}

/// A declared name.
#[derive(Debug)]
pub struct Symbol {
    pub ident: String,
    /// Constants cannot be assigned; functions count as constant.
    pub const_: bool,
    pub kind: SymbolKind,
}

/// The symbols of one block and the block that encloses it.
#[derive(Debug)]
pub struct BlockScope {
    pub symbols: Vec<Symbol>,
    pub parent: Option<usize>,
}

/// All blocks' scopes, indexed by block identifier.
#[derive(Debug)]
pub struct Scopes {
    pub scopes: Vec<BlockScope>,
}

pub enum SymbolKindModel {
    Val(BType),
    Func(FuncType, Seq<BType>),
}

pub struct SymbolModel {
    pub ident: Seq<char>,
    pub const_: bool,
    pub kind: SymbolKindModel,
}

pub struct ScopeModel {
    pub symbols: Seq<SymbolModel>,
    pub parent: Option<usize>,
}

impl View for Symbol {
    type V = SymbolModel;

    open spec fn view(&self) -> SymbolModel {
        SymbolModel {
            ident: self.ident@,
            const_: self.const_,
            kind: match self.kind {
                SymbolKind::Val(t) => SymbolKindModel::Val(t),
                SymbolKind::Func(r, ps) => SymbolKindModel::Func(r, ps@),
            },
        }
    }
}

impl View for BlockScope {
    type V = ScopeModel;

    open spec fn view(&self) -> ScopeModel {
        ScopeModel { symbols: self.symbols@.map_values(|s: Symbol| s@), parent: self.parent }
    }
}

impl View for Scopes {
    type V = Seq<ScopeModel>;

    open spec fn view(&self) -> Seq<ScopeModel> {
        self.scopes@.map_values(|b: BlockScope| b@)
    }
}

/// Index of the symbol named `name` among `syms[j..]`.
pub open spec fn find_symbol_from(syms: Seq<SymbolModel>, name: Seq<char>, j: int) -> Option<int>
    decreases syms.len() - j,
{
    if j >= syms.len() || j < 0 {
        None
    } else if syms[j].ident == name {
        Some(j)
    } else {
        find_symbol_from(syms, name, j + 1)
    }
}

pub open spec fn find_symbol(syms: Seq<SymbolModel>, name: Seq<char>) -> Option<int> {
    find_symbol_from(syms, name, 0)
}

/// No two symbols of a block share a name.
pub open spec fn names_unique(syms: Seq<SymbolModel>) -> bool {
    forall|i: int, j: int|
        0 <= i < syms.len() && 0 <= j < syms.len() && i != j ==> syms[i].ident != syms[j].ident
}

/// The table is well formed: parents come before their children and names
/// are unique within each block.
pub open spec fn scopes_wf(s: Seq<ScopeModel>) -> bool {
    forall|b: int|
        0 <= b < s.len() ==> (match (#[trigger] s[b]).parent {
            Some(p) => p < b,
            None => true,
        }) && names_unique(s[b].symbols)
}

/// The binding a name has in block `b`: the block itself if it declares
/// the name, else the nearest ancestor that does. `(block, symbol index)`.
pub open spec fn resolve(s: Seq<ScopeModel>, b: int, name: Seq<char>) -> Option<(int, int)>
    decreases b,
{
    if b < 0 || b >= s.len() {
        None
    } else {
        match find_symbol(s[b].symbols, name) {
            Some(j) => Some((b, j)),
            None => match s[b].parent {
                Some(p) => if p < b {
                    resolve(s, p as int, name)
                } else {
                    None
                },
                None => None,
            },
        }
    }
}

/// The chain of blocks from `b` outwards: `b`, its parent, and so on.
pub open spec fn chain(s: Seq<ScopeModel>, b: int) -> Seq<int>
    decreases b,
{
    if b < 0 || b >= s.len() {
        Seq::empty()
    } else {
        seq![b] + match s[b].parent {
            Some(p) => if p < b {
                chain(s, p as int)
            } else {
                Seq::empty()
            },
            None => Seq::empty(),
        }
    }
}

pub proof fn lemma_find_symbol(syms: Seq<SymbolModel>, name: Seq<char>, j: int)
    requires
        0 <= j,
    ensures
        match find_symbol_from(syms, name, j) {
            Some(k) => j <= k < syms.len() && syms[k].ident == name && forall|m: int|
                j <= m < k ==> syms[m].ident != name,
            None => forall|m: int| j <= m < syms.len() ==> syms[m].ident != name,
        },
    decreases syms.len() - j,
{
    if j < syms.len() && syms[j].ident != name {
        lemma_find_symbol(syms, name, j + 1);
    }
}

/// Name resolution picks exactly one declaration, and the innermost one: the
/// binding of `name` in block `b` is in the first block along the chain from
/// `b` outwards that declares `name`, and no block before it on the chain
/// declares it. When no block on the chain declares it, there is none.
pub proof fn lemma_resolve_innermost(s: Seq<ScopeModel>, b: int, name: Seq<char>)
    ensures
        match resolve(s, b, name) {
            Some((c, j)) => exists|k: int|
                0 <= k < chain(s, b).len() && #[trigger] chain(s, b)[k] == c && 0 <= j
                    < s[c].symbols.len() && s[c].symbols[j].ident == name && forall|m: int|
                    0 <= m < k ==> find_symbol(s[chain(s, b)[m]].symbols, name) is None,
            None => forall|k: int|
                0 <= k < chain(s, b).len() ==> find_symbol(
                    s[#[trigger] chain(s, b)[k]].symbols,
                    name,
                ) is None,
        },
    decreases b,
{
    if 0 <= b < s.len() {
        lemma_find_symbol(s[b].symbols, name, 0);
        let rest = match s[b].parent {
            Some(p) => if p < b {
                chain(s, p as int)
            } else {
                Seq::empty()
            },
            None => Seq::empty(),
        };
        assert(chain(s, b) == seq![b] + rest);
        match find_symbol(s[b].symbols, name) {
            Some(j) => {
                assert(chain(s, b)[0] == b);
            },
            None => {
                match s[b].parent {
                    Some(p) => if p < b {
                        lemma_resolve_innermost(s, p as int, name);
                        match resolve(s, p as int, name) {
                            Some((c, j)) => {
                                let k = choose|k: int|
                                    0 <= k < chain(s, p as int).len() && #[trigger] chain(
                                        s,
                                        p as int,
                                    )[k] == c && 0 <= j < s[c].symbols.len()
                                        && s[c].symbols[j].ident == name && forall|m: int|
                                        0 <= m < k ==> find_symbol(
                                            s[chain(s, p as int)[m]].symbols,
                                            name,
                                        ) is None;
                                assert(chain(s, b)[k + 1] == c);
                                assert forall|m: int| 0 <= m < k + 1 implies find_symbol(
                                    s[chain(s, b)[m]].symbols,
                                    name,
                                ) is None by {
                                    if m > 0 {
                                        assert(chain(s, b)[m] == chain(s, p as int)[m - 1]);
                                    }
                                }
                            },
                            None => {
                                assert forall|k: int| 0 <= k < chain(s, b).len() implies find_symbol(
                                    s[#[trigger] chain(s, b)[k]].symbols,
                                    name,
                                ) is None by {
                                    if k > 0 {
                                        assert(chain(s, b)[k] == chain(s, p as int)[k - 1]);
                                    }
                                }
                            },
                        }
                    } else {
                        assert(chain(s, b) =~= seq![b]);
                    },
                    None => {
                        assert(chain(s, b) =~= seq![b]);
                    },
                }
            },
        }
    }
}

/// The table after declaring `sym` in block `b`, or none when `b` already
/// declares its name.
pub open spec fn declare(s: Seq<ScopeModel>, b: int, sym: SymbolModel) -> Option<Seq<ScopeModel>> {
    if find_symbol(s[b].symbols, sym.ident) is Some {
        None
    } else {
        Some(s.update(b, ScopeModel { symbols: s[b].symbols.push(sym), ..s[b] }))
    }
}

/// A second declaration of a name in one block fails: after `sym` was
/// declared in block `b`, declaring any symbol of the same name there again
/// is an error, and a successful declaration keeps names unique.
pub proof fn lemma_no_redeclaration(s: Seq<ScopeModel>, b: int, sym: SymbolModel, sym2: SymbolModel)
    requires
        0 <= b < s.len(),
        scopes_wf(s),
        declare(s, b, sym) is Some,
        sym2.ident == sym.ident,
    ensures
        declare(declare(s, b, sym)->Some_0, b, sym2) is None,
        scopes_wf(declare(s, b, sym)->Some_0),
{
    let s2 = declare(s, b, sym)->Some_0;
    let syms = s[b].symbols.push(sym);
    assert(s2[b].symbols == syms);
    lemma_find_symbol(s[b].symbols, sym.ident, 0);
    lemma_find_symbol(syms, sym.ident, 0);
    assert(syms[syms.len() - 1].ident == sym.ident);
    assert forall|c: int| 0 <= c < s2.len() implies (match (#[trigger] s2[c]).parent {
        Some(p) => p < c,
        None => true,
    }) && names_unique(s2[c].symbols) by {
        if c == b {
            assert(s[b].parent == s2[b].parent);
        }
    }
}

impl Symbol {
    /// A function symbol.
    pub fn new_func(ident: String, ret: FuncType, params: Vec<BType>) -> (r: Symbol)
        ensures
            r@ == (SymbolModel { ident: ident@, const_: true, kind: SymbolKindModel::Func(ret, params@) }),
            r.ident == ident,
    {
        Symbol { ident, const_: true, kind: SymbolKind::Func(ret, params) }
    }

    /// A constant or variable symbol.
    pub fn new_val(ident: String, const_: bool, btype: BType) -> (r: Symbol)
        ensures
            r@ == (SymbolModel { ident: ident@, const_, kind: SymbolKindModel::Val(btype) }),
            r.ident == ident,
    {
        Symbol { ident, const_, kind: SymbolKind::Val(btype) }
    }
}

impl BlockScope {
    /// An empty scope under `parent`.
    pub fn new(parent: Option<usize>) -> (r: BlockScope)
        ensures
            r@ == (ScopeModel { symbols: Seq::empty(), parent }),
    {
        let r = BlockScope { symbols: Vec::new(), parent };
        assert(r@.symbols =~= Seq::<SymbolModel>::empty());
        r
    }

    /// Declare `sym` here; fails if this block already declares its name.
    pub fn decl(&mut self, sym: Symbol) -> (r: Result<(), Error>)
        ensures
            match find_symbol(old(self)@.symbols, sym@.ident) {
                Some(_) => r == Err::<(), Error>(
                    Error::SemanticError(SemanticError::Redeclared(sym.ident)),
                ) && final(self)@ == old(self)@,
                None => r == Ok::<(), Error>(()) && final(self)@ == (ScopeModel {
                    symbols: old(self)@.symbols.push(sym@),
                    ..old(self)@
                }),
            },
    {
        if self.get_symbol(&sym.ident).is_some() {
            return Err(Error::SemanticError(SemanticError::Redeclared(sym.ident)));
        }
        let ghost sm = sym@;
        self.symbols.push(sym);
        assert(self@.symbols =~= old(self)@.symbols.push(sm));
        Ok(())
    }

    /// The index of the symbol named `name` in this block.
    pub fn get_symbol(&self, name: &String) -> (r: Option<usize>)
        ensures
            match find_symbol(self@.symbols, name@) {
                Some(j) => r == Some(j as usize) && 0 <= j < self.symbols.len(),
                None => r is None,
            },
    {
        proof {
            lemma_find_symbol(self@.symbols, name@, 0);
        }
        let mut j: usize = 0;
        while j < self.symbols.len()
            invariant
                j <= self.symbols.len(),
                find_symbol_from(self@.symbols, name@, j as int) == find_symbol(self@.symbols, name@),
            decreases self.symbols.len() - j,
        {
            if self.symbols[j].ident == *name {
                return Some(j);
            }
            j = j + 1;
        }
        None
    }
}

impl Scopes {
    pub fn new() -> (r: Scopes)
        ensures
            r@ == Seq::<ScopeModel>::empty(),
    {
        let r = Scopes { scopes: Vec::new() };
        assert(r@ =~= Seq::<ScopeModel>::empty());
        r
    }

    /// Add an empty scope under `parent`; its identifier is returned.
    pub fn add_scope(&mut self, parent: Option<usize>) -> (r: usize)
        requires
            old(self)@.len() < usize::MAX,
        ensures
            r == old(self)@.len(),
            final(self)@ == old(self)@.push(ScopeModel { symbols: Seq::empty(), parent }),
    {
        let r = self.scopes.len();
        let b = BlockScope::new(parent);
        self.scopes.push(b);
        assert(self@ =~= old(self)@.push(b@));
        r
    }

    /// The parent of block `b`.
    pub fn get_parent_scope(&self, b: usize) -> (r: Option<usize>)
        requires
            b < self@.len(),
        ensures
            r == self@[b as int].parent,
    {
        self.scopes[b].parent
    }

    pub fn len(&self) -> (r: usize)
        ensures
            r == self@.len(),
    {
        self.scopes.len()
    }

    /// Declare `sym` in block `b`; fails if `b` already declares its name.
    pub fn decl(&mut self, b: usize, sym: Symbol) -> (r: Result<(), Error>)
        requires
            b < old(self)@.len(),
        ensures
            match declare(old(self)@, b as int, sym@) {
                Some(s) => r == Ok::<(), Error>(()) && final(self)@ == s,
                None => r == Err::<(), Error>(
                    Error::SemanticError(SemanticError::Redeclared(sym.ident)),
                ) && final(self)@ == old(self)@,
            },
    {
        let ghost sm = sym@;
        let mut scope = self.scopes.remove(b);
        assert(scope@ == old(self)@[b as int]);
        let r = scope.decl(sym);
        let ghost new_scope = scope@;
        self.scopes.insert(b, scope);
        proof {
            if r is Ok {
                assert(self@ =~= old(self)@.update(b as int, new_scope));
            } else {
                assert(self@ =~= old(self)@);
            }
        }
        r
    }

    /// The symbol at `(b, j)`.
    pub fn symbol(&self, b: usize, j: usize) -> (r: &Symbol)
        requires
            b < self@.len(),
            j < self@[b as int].symbols.len(),
        ensures
            r@ == self@[b as int].symbols[j as int],
    {
        assert(self@[b as int] == self.scopes@[b as int]@);
        &self.scopes[b].symbols[j]
    }

    /// Resolve `name` from block `b`; see `resolve`.
    pub fn resolve(&self, b: usize, name: &String) -> (r: Option<(usize, usize)>)
        ensures
            match r {
                Some((c, j)) => resolve(self@, b as int, name@) == Some((c as int, j as int)) && c
                    < self@.len() && j < self@[c as int].symbols.len(),
                None => resolve(self@, b as int, name@) is None,
            },
    {
        let mut cur = b;
        while cur < self.scopes.len()
            invariant
                resolve(self@, cur as int, name@) == resolve(self@, b as int, name@),
            decreases cur,
        {
            assert(self@[cur as int] == self.scopes@[cur as int]@);
            match self.scopes[cur].get_symbol(name) {
                Some(j) => return Some((cur, j)),
                None => {},
            }
            match self.scopes[cur].parent {
                Some(p) => {
                    if p < cur {
                        cur = p;
                    } else {
                        return None;
                    }
                },
                None => return None,
            }
        }
        None
    }
}

} // verus!
