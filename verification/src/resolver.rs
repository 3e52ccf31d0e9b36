//! Name resolution: every declared variable is renamed to a globally unique
//! `<source>.<k>`, where `k` counts the declarations made so far.
//!
//! A single forward pass over the block items threads a mapping from source
//! names to generated names.  Declaring a name twice is an error; using a
//! name with no declaration is an error; assigning to anything but a bare
//! variable is an error.  The generated name is inserted into the mapping
//! before the declaration's own initializer is resolved, so an initializer
//! may refer to the variable it initializes.
//!
//! The mapping is modelled as the sequence of (source name, generated name)
//! pairs in declaration order, and the whole pass is specified by
//! [`spec_resolve`].  Because a generated name always contains a dot and a
//! source identifier never does, the mapping is injective; that is proved in
//! [`lemma_resolver_mapping_injective`].

use vstd::prelude::*;

use crate::ast::BlockItem;
use crate::ast::BlockItemV;
use crate::ast::Decl;
use crate::ast::DeclV;
use crate::ast::Expr;
use crate::ast::ExprV;
use crate::ast::FuncDef;
use crate::ast::FuncDefV;
use crate::ast::Stmt;
use crate::ast::StmtV;
use crate::ast::expr_height;
use crate::ast::view_items;
use crate::names::dot_free;
use crate::names::dotted_name;
use crate::names::lemma_dotted_name_injective;
use crate::names::lemma_dotted_name_not_dot_free;
use crate::names::make_dotted_name;
use crate::names::resolved_name;

verus! {

/// The resolver's mapping: (source name, generated name) pairs in
/// declaration order.
pub type NameMapV = Seq<(Seq<char>, Seq<char>)>;

/// A scope violation found by the resolver.
#[derive(Debug)]
pub enum ResolveError {
    DuplicateDeclaration(String),
    UndeclaredVariable(String),
    InvalidLvalue,
}

/// The mathematical view of a resolver error.
pub enum ResolveErrV {
    DuplicateDeclaration(Seq<char>),
    UndeclaredVariable(Seq<char>),
    InvalidLvalue,
}

impl View for ResolveError {
    type V = ResolveErrV;

    open spec fn view(&self) -> ResolveErrV {
        match self {
            ResolveError::DuplicateDeclaration(n) => ResolveErrV::DuplicateDeclaration(n@),
            ResolveError::UndeclaredVariable(n) => ResolveErrV::UndeclaredVariable(n@),
            ResolveError::InvalidLvalue => ResolveErrV::InvalidLvalue,
        }
    }
}

/// The rendered text of a resolver error, as the driver prints it.
pub open spec fn resolve_error_text(e: ResolveErrV) -> Seq<char> {
    match e {
        ResolveErrV::DuplicateDeclaration(n) => "Resolver Error:\n"@ + n
            + " is a duplicate variable declaration"@,
        ResolveErrV::UndeclaredVariable(n) => "Resolver Error:\n"@ + n
            + " is an undeclared variable"@,
        ResolveErrV::InvalidLvalue => "Resolver Error:\nInvalid lvalue"@,
    }
}

impl ResolveError {
    /// The diagnostic text, as the driver prints it.
    pub fn message(&self) -> (r: String)
        ensures
            r@ == resolve_error_text(self@),
    {
        match self {
            ResolveError::DuplicateDeclaration(n) => {
                let mut s = String::from_str("Resolver Error:\n");
                s.append(n.as_str());
                s.append(" is a duplicate variable declaration");
                assert(s@ =~= "Resolver Error:\n"@ + n@ + " is a duplicate variable declaration"@);
                s
            },
            ResolveError::UndeclaredVariable(n) => {
                let mut s = String::from_str("Resolver Error:\n");
                s.append(n.as_str());
                s.append(" is an undeclared variable");
                assert(s@ =~= "Resolver Error:\n"@ + n@ + " is an undeclared variable"@);
                s
            },
            ResolveError::InvalidLvalue => {
                let mut s = String::from_str("Resolver Error:\n");
                s.append("Invalid lvalue");
                proof {
                    reveal_strlit("Resolver Error:\nInvalid lvalue");
                    reveal_strlit("Resolver Error:\n");
                    reveal_strlit("Invalid lvalue");
                }
                assert(s@ =~= "Resolver Error:\nInvalid lvalue"@);
                s
            },
        }
    }
}

/// The generated name for `key`, if it has been declared.
pub open spec fn spec_lookup(m: NameMapV, key: Seq<char>) -> Option<Seq<char>>
    decreases m.len(),
{
    if m.len() == 0 {
        None
    } else if m[0].0 == key {
        Some(m[0].1)
    } else {
        spec_lookup(m.drop_first(), key)
    }
}

/// Resolving an expression: every variable is replaced by its mapped name;
/// an unmapped variable and a non-variable assignment target are errors,
/// the target error raised before either side is examined.
pub open spec fn spec_resolve_expr(e: ExprV, m: NameMapV) -> Result<ExprV, ResolveErrV>
    decreases e,
{
    match e {
        ExprV::Constant(v) => Ok(ExprV::Constant(v)),
        ExprV::Var(name) => match spec_lookup(m, name) {
            Some(mapped) => Ok(ExprV::Var(mapped)),
            None => Err(ResolveErrV::UndeclaredVariable(name)),
        },
        ExprV::Unary(op, inner) => match spec_resolve_expr(*inner, m) {
            Ok(inner2) => Ok(ExprV::Unary(op, Box::new(inner2))),
            Err(err) => Err(err),
        },
        ExprV::Binary(op, l, r) => match spec_resolve_expr(*l, m) {
            Ok(l2) => match spec_resolve_expr(*r, m) {
                Ok(r2) => Ok(ExprV::Binary(op, Box::new(l2), Box::new(r2))),
                Err(err) => Err(err),
            },
            Err(err) => Err(err),
        },
        ExprV::Assignment(l, r) => if !(*l is Var) {
            Err(ResolveErrV::InvalidLvalue)
        } else {
            match spec_resolve_expr(*l, m) {
                Ok(l2) => match spec_resolve_expr(*r, m) {
                    Ok(r2) => Ok(ExprV::Assignment(Box::new(l2), Box::new(r2))),
                    Err(err) => Err(err),
                },
                Err(err) => Err(err),
            }
        },
    }
}

/// Resolving a statement leaves the mapping untouched.
pub open spec fn spec_resolve_stmt(s: StmtV, m: NameMapV) -> Result<StmtV, ResolveErrV> {
    match s {
        StmtV::Return(e) => match spec_resolve_expr(e, m) {
            Ok(e2) => Ok(StmtV::Return(e2)),
            Err(err) => Err(err),
        },
        StmtV::Expression(e) => match spec_resolve_expr(e, m) {
            Ok(e2) => Ok(StmtV::Expression(e2)),
            Err(err) => Err(err),
        },
        StmtV::Null => Ok(StmtV::Null),
    }
}

/// Resolving a declaration: a mapped name is a duplicate; otherwise the
/// variable is renamed to `<name>.<k>` with `k` the number of declarations
/// so far, the pair is inserted, and the initializer (if any) is resolved
/// under the extended mapping.
pub open spec fn spec_resolve_decl(d: DeclV, m: NameMapV) -> Result<
    (DeclV, NameMapV),
    ResolveErrV,
> {
    match d {
        DeclV::Declaration(name, init) => if spec_lookup(m, name) is Some {
            Err(ResolveErrV::DuplicateDeclaration(name))
        } else {
            let new_name = dotted_name(name, m.len());
            let m2 = m.push((name, new_name));
            match init {
                None => Ok((DeclV::Declaration(new_name, None), m2)),
                Some(e) => match spec_resolve_expr(e, m2) {
                    Ok(e2) => Ok((DeclV::Declaration(new_name, Some(e2)), m2)),
                    Err(err) => Err(err),
                },
            }
        },
    }
}

/// Resolving one block item.
pub open spec fn spec_resolve_item(b: BlockItemV, m: NameMapV) -> Result<
    (BlockItemV, NameMapV),
    ResolveErrV,
> {
    match b {
        BlockItemV::D(d) => match spec_resolve_decl(d, m) {
            Ok((d2, m2)) => Ok((BlockItemV::D(d2), m2)),
            Err(err) => Err(err),
        },
        BlockItemV::S(s) => match spec_resolve_stmt(s, m) {
            Ok(s2) => Ok((BlockItemV::S(s2), m)),
            Err(err) => Err(err),
        },
    }
}

/// Resolving a sequence of block items in order, threading the mapping.
pub open spec fn spec_resolve_items(items: Seq<BlockItemV>, m: NameMapV) -> Result<
    (Seq<BlockItemV>, NameMapV),
    ResolveErrV,
>
    decreases items.len(),
{
    if items.len() == 0 {
        Ok((Seq::empty(), m))
    } else {
        match spec_resolve_item(items[0], m) {
            Err(err) => Err(err),
            Ok((b, m2)) => match spec_resolve_items(items.drop_first(), m2) {
                Err(err) => Err(err),
                Ok((rest, mf)) => Ok((seq![b] + rest, mf)),
            },
        }
    }
}

/// Resolving a whole function: its body under an initially empty mapping.
pub open spec fn spec_resolve(f: FuncDefV) -> Result<FuncDefV, ResolveErrV> {
    match f {
        FuncDefV::Function(name, items) => match spec_resolve_items(items, Seq::empty()) {
            Ok((items2, _)) => Ok(FuncDefV::Function(name, items2)),
            Err(err) => Err(err),
        },
    }
}

/// The view of the executable mapping vector.
pub open spec fn view_map(m: Seq<(String, String)>) -> NameMapV {
    m.map(|i: int, p: (String, String)| (p.0@, p.1@))
}

/// Looks a source name up in the mapping, yielding a copy of its generated
/// name.
fn map_lookup(var_map: &Vec<(String, String)>, key: &String) -> (r: Option<String>)
    ensures
        match r {
            Some(found) => spec_lookup(view_map(var_map@), key@) == Some(found@),
            None => spec_lookup(view_map(var_map@), key@) is None,
        },
{
    proof {
        assert(view_map(var_map@).skip(0) =~= view_map(var_map@));
    }
    let mut i: usize = 0;
    while i < var_map.len()
        invariant
            i <= var_map@.len(),
            spec_lookup(view_map(var_map@), key@) == spec_lookup(
                view_map(var_map@).skip(i as int),
                key@,
            ),
        decreases var_map@.len() - i,
    {
        proof {
            assert(view_map(var_map@).skip(i as int).drop_first() =~= view_map(var_map@).skip(
                i as int + 1,
            ));
        }
        if var_map[i].0 == *key {
            return Some(var_map[i].1.clone());
        }
        i = i + 1;
    }
    None
}

/// Builds the generated name `<name>.<postfix>`.
fn unique_name(name: &String, postfix: usize) -> (r: String)
    ensures
        r@ == dotted_name(name@, postfix as nat),
{
    make_dotted_name(name.as_str(), postfix as u64)
}

/// Resolves a variable reference.
fn resolve_var(var: &String, var_map: &Vec<(String, String)>) -> (r: Result<Expr, ResolveError>)
    ensures
        match r {
            Ok(e) => spec_resolve_expr(ExprV::Var(var@), view_map(var_map@)) == Ok::<
                ExprV,
                ResolveErrV,
            >(e@),
            Err(err) => spec_resolve_expr(ExprV::Var(var@), view_map(var_map@)) == Err::<
                ExprV,
                ResolveErrV,
            >(err@),
        },
{
    match map_lookup(var_map, var) {
        Some(mapped) => Ok(Expr::Var(mapped)),
        None => Err(ResolveError::UndeclaredVariable(var.clone())),
    }
}

/// Resolves an expression under the current mapping.
fn resolve_expr(expr: &Expr, var_map: &Vec<(String, String)>) -> (r: Result<Expr, ResolveError>)
    ensures
        match r {
            Ok(e) => spec_resolve_expr(expr@, view_map(var_map@)) == Ok::<ExprV, ResolveErrV>(e@),
            Err(err) => spec_resolve_expr(expr@, view_map(var_map@)) == Err::<ExprV, ResolveErrV>(
                err@,
            ),
        },
    decreases expr_height(*expr), 0int,
{
    match expr {
        Expr::Assignment(left, right) => resolve_assignment(left, right, var_map),
        Expr::Var(v) => resolve_var(v, var_map),
        Expr::Binary(op, left, right) => {
            let l2 = match resolve_expr(left, var_map) {
                Ok(e) => e,
                Err(err) => {
                    return Err(err);
                },
            };
            let r2 = match resolve_expr(right, var_map) {
                Ok(e) => e,
                Err(err) => {
                    return Err(err);
                },
            };
            Ok(Expr::Binary(*op, Box::new(l2), Box::new(r2)))
        },
        Expr::Unary(op, oprnd) => {
            let inner2 = match resolve_expr(oprnd, var_map) {
                Ok(e) => e,
                Err(err) => {
                    return Err(err);
                },
            };
            Ok(Expr::Unary(*op, Box::new(inner2)))
        },
        Expr::Constant(v) => Ok(Expr::Constant(*v)),
    }
}

/// Resolves an assignment: the target must be a bare variable, checked
/// before either side is resolved.
fn resolve_assignment(
    left: &Expr,
    right: &Expr,
    var_map: &Vec<(String, String)>,
) -> (r: Result<Expr, ResolveError>)
    ensures
        match r {
            Ok(e) => spec_resolve_expr(
                ExprV::Assignment(Box::new(left@), Box::new(right@)),
                view_map(var_map@),
            ) == Ok::<ExprV, ResolveErrV>(e@),
            Err(err) => spec_resolve_expr(
                ExprV::Assignment(Box::new(left@), Box::new(right@)),
                view_map(var_map@),
            ) == Err::<ExprV, ResolveErrV>(err@),
        },
    decreases if expr_height(*left) >= expr_height(*right) {
        expr_height(*left)
    } else {
        expr_height(*right)
    }, 1int,
{
    let is_var: bool = match left {
        Expr::Var(_) => true,
        _ => false,
    };
    if !is_var {
        return Err(ResolveError::InvalidLvalue);
    }
    let l2 = match resolve_expr(left, var_map) {
        Ok(e) => e,
        Err(err) => {
            return Err(err);
        },
    };
    let r2 = match resolve_expr(right, var_map) {
        Ok(e) => e,
        Err(err) => {
            return Err(err);
        },
    };
    Ok(Expr::Assignment(Box::new(l2), Box::new(r2)))
}

/// Resolves a statement; the mapping is read, never extended.
fn resolve_stmt(stmt: &Stmt, var_map: &Vec<(String, String)>) -> (r: Result<Stmt, ResolveError>)
    ensures
        match r {
            Ok(s) => spec_resolve_stmt(stmt@, view_map(var_map@)) == Ok::<StmtV, ResolveErrV>(s@),
            Err(err) => spec_resolve_stmt(stmt@, view_map(var_map@)) == Err::<StmtV, ResolveErrV>(
                err@,
            ),
        },
{
    match stmt {
        Stmt::Return(e) => match resolve_expr(e, var_map) {
            Ok(e2) => Ok(Stmt::Return(e2)),
            Err(err) => Err(err),
        },
        Stmt::Expression(e) => match resolve_expr(e, var_map) {
            Ok(e2) => Ok(Stmt::Expression(e2)),
            Err(err) => Err(err),
        },
        Stmt::Null => Ok(Stmt::Null),
    }
}

/// Resolves a declaration, renaming the variable and extending the mapping
/// before its initializer is resolved.
fn resolve_decl(decl: &Decl, var_map: &mut Vec<(String, String)>) -> (r: Result<
    Decl,
    ResolveError,
>)
    ensures
        match r {
            Ok(d) => spec_resolve_decl(decl@, view_map(old(var_map)@)) == Ok::<
                (DeclV, NameMapV),
                ResolveErrV,
            >((d@, view_map(final(var_map)@))),
            Err(err) => spec_resolve_decl(decl@, view_map(old(var_map)@)) == Err::<
                (DeclV, NameMapV),
                ResolveErrV,
            >(err@),
        },
{
    match decl {
        Decl::Declaration(name, init) => {
            match map_lookup(var_map, name) {
                Some(_) => {
                    return Err(ResolveError::DuplicateDeclaration(name.clone()));
                },
                None => {},
            }
            let new_name = unique_name(name, var_map.len());
            var_map.push((name.clone(), new_name.clone()));
            proof {
                assert(view_map(var_map@) =~= view_map(old(var_map)@).push(
                    (name@, new_name@),
                ));
            }
            let resolved_init: Option<Expr> = match init {
                Some(e) => {
                    let e2 = match resolve_expr(e, var_map) {
                        Ok(e2) => e2,
                        Err(err) => {
                            return Err(err);
                        },
                    };
                    Some(e2)
                },
                None => None,
            };
            Ok(Decl::Declaration(new_name, resolved_init))
        },
    }
}

/// Resolves one block item.
fn resolve_item(item: &BlockItem, var_map: &mut Vec<(String, String)>) -> (r: Result<
    BlockItem,
    ResolveError,
>)
    ensures
        match r {
            Ok(b) => spec_resolve_item(item@, view_map(old(var_map)@)) == Ok::<
                (BlockItemV, NameMapV),
                ResolveErrV,
            >((b@, view_map(final(var_map)@))),
            Err(err) => spec_resolve_item(item@, view_map(old(var_map)@)) == Err::<
                (BlockItemV, NameMapV),
                ResolveErrV,
            >(err@),
        },
{
    match item {
        BlockItem::D(decl) => match resolve_decl(decl, var_map) {
            Ok(d) => Ok(BlockItem::D(d)),
            Err(err) => Err(err),
        },
        BlockItem::S(stmt) => match resolve_stmt(stmt, var_map) {
            Ok(s) => Ok(BlockItem::S(s)),
            Err(err) => Err(err),
        },
    }
}

/// A resolved prefix joined with the outcome of resolving the items that
/// remain.
pub open spec fn resolve_join(
    done: Seq<BlockItemV>,
    rest: Result<(Seq<BlockItemV>, NameMapV), ResolveErrV>,
) -> Result<(Seq<BlockItemV>, NameMapV), ResolveErrV> {
    match rest {
        Err(err) => Err(err),
        Ok((items, mf)) => Ok((done + items, mf)),
    }
}

/// Resolves a whole function in place: on success every variable name in
/// the tree has been replaced by its unique generated name, exactly as
/// [`spec_resolve`] describes; on failure the first scope violation is
/// returned.
#[verifier::loop_isolation(false)]
pub fn resolve_vars(ast: &mut FuncDef) -> (r: Result<(), ResolveError>)
    ensures
        match r {
            Ok(_) => spec_resolve(old(ast)@) == Ok::<FuncDefV, ResolveErrV>(final(ast)@),
            Err(err) => spec_resolve(old(ast)@) == Err::<FuncDefV, ResolveErrV>(err@)
                && *final(ast) == *old(ast),
        },
{
    let ghost orig_items = match old(ast)@ {
        FuncDefV::Function(_, items) => items,
    };
    let (name, n) = match &*ast {
        FuncDef::Function(name, items) => (name.clone(), items.len()),
    };
    let mut new_items: Vec<BlockItem> = Vec::new();
    let mut var_map: Vec<(String, String)> = Vec::new();
    proof {
        assert(view_map(var_map@) =~= Seq::<(Seq<char>, Seq<char>)>::empty());
        assert(view_items(new_items@) =~= Seq::<BlockItemV>::empty());
        assert(orig_items.skip(0) =~= orig_items);
        match spec_resolve_items(orig_items, Seq::empty()) {
            Err(_) => {},
            Ok((items2, _)) => {
                assert(Seq::<BlockItemV>::empty() + items2 =~= items2);
            },
        }
    }
    let mut i: usize = 0;
    while i < n
        invariant
            i <= n,
            *ast == *old(ast),
            view_items(new_items@).len() == i as int,
            spec_resolve_items(orig_items, Seq::empty()) == resolve_join(
                view_items(new_items@),
                spec_resolve_items(orig_items.skip(i as int), view_map(var_map@)),
            ),
        decreases n - i,
    {
        let item_ref = match &*ast {
            FuncDef::Function(_, items) => &items[i],
        };
        proof {
            assert(orig_items.skip(i as int)[0] == item_ref@);
        }
        let ghost items_pre = new_items@;
        let resolved = match resolve_item(item_ref, &mut var_map) {
            Ok(b) => b,
            Err(err) => {
                return Err(err);
            },
        };
        new_items.push(resolved);
        i = i + 1;
        proof {
            assert(orig_items.skip(i as int - 1).drop_first() =~= orig_items.skip(i as int));
            assert(view_items(new_items@) =~= view_items(items_pre).push(resolved@));
            match spec_resolve_items(orig_items.skip(i as int), view_map(var_map@)) {
                Err(_) => {},
                Ok((rest_items, _)) => {
                    assert(view_items(items_pre) + (seq![resolved@] + rest_items) =~= view_items(
                        new_items@,
                    ) + rest_items);
                },
            }
        }
    }
    proof {
        assert(orig_items.skip(n as int) =~= Seq::<BlockItemV>::empty());
        assert(view_items(new_items@) + Seq::<BlockItemV>::empty() =~= view_items(new_items@));
    }
    *ast = FuncDef::Function(name, new_items);
    Ok(())
}

/// The mapping a successful pass builds is well formed: the pair at index
/// `i` maps a dot-free source name to `<source>.<i>`.
pub open spec fn map_wf(m: NameMapV) -> bool {
    forall|i: int|
        0 <= i < m.len() ==> dot_free((#[trigger] m[i]).0) && m[i].1 == dotted_name(m[i].0, i as nat)
}

/// Every declaration in these items carries a dot-free name.
pub open spec fn decl_names_dot_free(items: Seq<BlockItemV>) -> bool {
    forall|i: int|
        0 <= i < items.len() ==> match #[trigger] items[i] {
            BlockItemV::D(DeclV::Declaration(name, _)) => dot_free(name),
            _ => true,
        }
}

proof fn lemma_resolve_items_wf(items: Seq<BlockItemV>, m: NameMapV)
    requires
        map_wf(m),
        decl_names_dot_free(items),
    ensures
        spec_resolve_items(items, m) matches Ok((r, mf)) ==> map_wf(mf),
    decreases items.len(),
{
    if items.len() > 0 {
        match spec_resolve_item(items[0], m) {
            Err(_) => {},
            Ok((b, m2)) => {
                assert(map_wf(m2)) by {
                    match items[0] {
                        BlockItemV::D(DeclV::Declaration(name, _)) => {
                            assert(forall|k: int|
                                0 <= k < m.len() ==> m2[k] == #[trigger] m[k]);
                        },
                        _ => {},
                    }
                }
                assert(decl_names_dot_free(items.drop_first())) by {
                    assert(forall|k: int|
                        0 <= k < items.len() - 1 ==> items.drop_first()[k] == #[trigger] items[
                            k + 1
                        ]);
                }
                lemma_resolve_items_wf(items.drop_first(), m2);
            },
        }
    }
}

/// Whether the expression references the variable `v`.
pub open spec fn expr_mentions(e: ExprV, v: Seq<char>) -> bool
    decreases e,
{
    match e {
        ExprV::Constant(_) => false,
        ExprV::Var(n) => n == v,
        ExprV::Unary(_, inner) => expr_mentions(*inner, v),
        ExprV::Binary(_, l, r) => expr_mentions(*l, v) || expr_mentions(*r, v),
        ExprV::Assignment(l, r) => expr_mentions(*l, v) || expr_mentions(*r, v),
    }
}

/// Whether the statement references the variable `v`.
pub open spec fn stmt_mentions(st: StmtV, v: Seq<char>) -> bool {
    match st {
        StmtV::Return(e) => expr_mentions(e, v),
        StmtV::Expression(e) => expr_mentions(e, v),
        StmtV::Null => false,
    }
}

/// Undeclared use: an expression that references a variable the mapping
/// does not know can never resolve; the first violation on its evaluation
/// path is reported and the program never reaches lowering.
pub proof fn lemma_undeclared_use_fails(e: ExprV, m: NameMapV, v: Seq<char>)
    requires
        expr_mentions(e, v),
        spec_lookup(m, v) is None,
    ensures
        spec_resolve_expr(e, m) is Err,
    decreases e,
{
    match e {
        ExprV::Constant(_) => {
        },
        ExprV::Var(_) => {
        },
        ExprV::Unary(_, inner) => {
            lemma_undeclared_use_fails(*inner, m, v);
        },
        ExprV::Binary(_, l, r) => {
            if expr_mentions(*l, v) {
                lemma_undeclared_use_fails(*l, m, v);
            } else {
                lemma_undeclared_use_fails(*r, m, v);
            }
        },
        ExprV::Assignment(l, r) => {
            if *l is Var {
                if expr_mentions(*l, v) {
                    lemma_undeclared_use_fails(*l, m, v);
                } else {
                    lemma_undeclared_use_fails(*r, m, v);
                }
            }
        },
    }
}

/// Undeclared use at statement level: a statement referencing an unmapped
/// variable fails resolution.
pub proof fn lemma_undeclared_use_fails_stmt(st: StmtV, m: NameMapV, v: Seq<char>)
    requires
        stmt_mentions(st, v),
        spec_lookup(m, v) is None,
    ensures
        spec_resolve_stmt(st, m) is Err,
{
    match st {
        StmtV::Return(e) => lemma_undeclared_use_fails(e, m, v),
        StmtV::Expression(e) => lemma_undeclared_use_fails(e, m, v),
        StmtV::Null => {},
    }
}

/// Every generated name the mapping holds is a resolver name.
pub open spec fn map_values_resolved(m: NameMapV) -> bool {
    forall|i: int| 0 <= i < m.len() ==> resolved_name((#[trigger] m[i]).1)
}

/// A successful lookup yields one of the mapping's values.
proof fn lemma_lookup_resolved(m: NameMapV, key: Seq<char>)
    requires
        map_values_resolved(m),
    ensures
        spec_lookup(m, key) matches Some(v) ==> resolved_name(v),
    decreases m.len(),
{
    if m.len() > 0 && m[0].0 != key {
        assert(forall|i: int|
            0 <= i < m.drop_first().len() ==> resolved_name(
                (#[trigger] m.drop_first()[i]).1,
            ));
        lemma_lookup_resolved(m.drop_first(), key);
    }
}

/// A resolved expression carries only mapped names, and its assignment
/// targets are bare variables: it is fit for the lowering pass.
proof fn lemma_resolve_expr_wf(e: ExprV, m: NameMapV)
    requires
        map_values_resolved(m),
    ensures
        spec_resolve_expr(e, m) matches Ok(e2) ==> crate::tacky::resolved_expr_wf(e2),
    decreases e,
{
    match e {
        ExprV::Constant(_) => {
        },
        ExprV::Var(name) => {
            lemma_lookup_resolved(m, name);
        },
        ExprV::Unary(_, inner) => {
            lemma_resolve_expr_wf(*inner, m);
        },
        ExprV::Binary(_, l, r) => {
            lemma_resolve_expr_wf(*l, m);
            lemma_resolve_expr_wf(*r, m);
        },
        ExprV::Assignment(l, r) => {
            lemma_resolve_expr_wf(*l, m);
            lemma_resolve_expr_wf(*r, m);
        },
    }
}

/// Resolving a declaration under a resolver-named mapping yields a
/// resolved declaration and keeps the mapping resolver-named.
proof fn lemma_resolve_decl_wf(d: DeclV, m: NameMapV)
    requires
        map_values_resolved(m),
        (d matches DeclV::Declaration(name, _) ==> dot_free(name)),
    ensures
        spec_resolve_decl(d, m) matches Ok((d2, m2)) ==> crate::tacky::resolved_decl_wf(d2)
            && map_values_resolved(m2),
{
    match d {
        DeclV::Declaration(name, init) => {
            if spec_lookup(m, name) is None {
                let new_name = dotted_name(name, m.len());
                assert(resolved_name(new_name));
                let m2 = m.push((name, new_name));
                assert(map_values_resolved(m2)) by {
                    assert(forall|i: int| 0 <= i < m.len() ==> m2[i] == #[trigger] m[i]);
                }
                match init {
                    Some(e) => {
                        lemma_resolve_expr_wf(e, m2);
                    },
                    None => {},
                }
            }
        },
    }
}

/// Resolving a statement yields a resolved statement.
proof fn lemma_resolve_stmt_wf(st: StmtV, m: NameMapV)
    requires
        map_values_resolved(m),
    ensures
        spec_resolve_stmt(st, m) matches Ok(s2) ==> crate::tacky::resolved_stmt_wf(s2),
{
    match st {
        StmtV::Return(e) => lemma_resolve_expr_wf(e, m),
        StmtV::Expression(e) => lemma_resolve_expr_wf(e, m),
        StmtV::Null => {},
    }
}

/// Resolving a sequence of items yields a resolved body.
proof fn lemma_resolve_items_output_wf(items: Seq<BlockItemV>, m: NameMapV)
    requires
        map_values_resolved(m),
        decl_names_dot_free(items),
    ensures
        spec_resolve_items(items, m) matches Ok((items2, mf)) ==> crate::tacky::resolved_body_wf(
            items2,
        ) && map_values_resolved(mf),
    decreases items.len(),
{
    if items.len() > 0 {
        match items[0] {
            BlockItemV::D(d) => {
                lemma_resolve_decl_wf(d, m);
            },
            BlockItemV::S(st) => {
                lemma_resolve_stmt_wf(st, m);
            },
        }
        match spec_resolve_item(items[0], m) {
            Err(_) => {},
            Ok((b2, m2)) => {
                assert(decl_names_dot_free(items.drop_first())) by {
                    assert(forall|k: int|
                        0 <= k < items.len() - 1 ==> items.drop_first()[k] == #[trigger] items[
                            k + 1
                        ]);
                }
                lemma_resolve_items_output_wf(items.drop_first(), m2);
                match spec_resolve_items(items.drop_first(), m2) {
                    Err(_) => {},
                    Ok((rest2, _)) => {
                        let items2 = seq![b2] + rest2;
                        assert(crate::tacky::resolved_body_wf(items2)) by {
                            assert forall|i: int|
                                0 <= i < items2.len() implies crate::tacky::resolved_item_wf(
                                #[trigger] items2[i],
                            ) by {
                                if i > 0 {
                                    assert(items2[i] == rest2[i - 1]);
                                }
                            }
                        }
                    },
                }
            },
        }
    }
}

/// What the resolver hands the lowering pass is a resolved tree: every
/// variable name in it is a resolver-generated `<identifier>.<k>` with a
/// dot-free identifier, and every assignment target is a bare variable.
/// Together with the lowering's own freshness theorem this discharges the
/// invariant that temporaries never collide with resolved variable names.
pub proof fn lemma_resolver_output_wf(f: FuncDefV)
    requires
        (f matches FuncDefV::Function(_, items) ==> decl_names_dot_free(items)),
    ensures
        spec_resolve(f) matches Ok(f2) ==> crate::tacky::resolved_func_wf(f2),
{
    match f {
        FuncDefV::Function(_, items) => {
            lemma_resolve_items_output_wf(items, Seq::empty());
        },
    }
}

/// The resolver's name mapping is injective: no two entries share a
/// generated name, and no generated name equals any source name.  This
/// holds of the mapping that resolving any body with dot-free source
/// identifiers builds, since entry `i` is `<source>.<i>`.
pub proof fn lemma_resolver_mapping_injective(m: NameMapV)
    requires
        map_wf(m),
    ensures
        forall|i: int, j: int|
            0 <= i < m.len() && 0 <= j < m.len() && i != j ==> (#[trigger] m[i]).1 != (
            #[trigger] m[j]).1,
        forall|i: int, j: int|
            0 <= i < m.len() && 0 <= j < m.len() ==> (#[trigger] m[i]).1 != (#[trigger] m[j]).0,
{
    assert forall|i: int, j: int|
        0 <= i < m.len() && 0 <= j < m.len() && i != j implies (#[trigger] m[i]).1 != (
    #[trigger] m[j]).1 by {
        if m[i].1 == m[j].1 {
            lemma_dotted_name_injective(m[i].0, i as nat, m[j].0, j as nat);
        }
    }
    assert forall|i: int, j: int|
        0 <= i < m.len() && 0 <= j < m.len() implies (#[trigger] m[i]).1 != (#[trigger] m[j]).0 by {
        lemma_dotted_name_not_dot_free(m[i].0, i as nat);
    }
}

/// Resolving a whole body from the empty mapping yields a well-formed
/// mapping, so its generated names are injective and collide with no source
/// identifier.
pub proof fn lemma_resolution_builds_injective_names(items: Seq<BlockItemV>)
    requires
        decl_names_dot_free(items),
    ensures
        spec_resolve_items(items, Seq::empty()) matches Ok((r, mf)) ==> map_wf(mf),
{
    lemma_resolve_items_wf(items, Seq::empty());
}

} // verus!
