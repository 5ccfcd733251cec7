//! Reduction: beta, delta and primitive steps at the head of a term, and
//! normal forms by reduction under every constructor. Reduction has no end
//! of its own, so every function here takes the number of steps it may
//! make.

use vstd::prelude::*;
use crate::defs::{find_cid, BindingView, Defs};
use crate::error::{IpldError, IpldErrorView};
use crate::literal::{Literal, LiteralView};
use crate::position::{Pos, PositionView};
use crate::prim::PrimOp;
use crate::term::{Term, TermView};

verus! {

/// The term with `by` added to every variable that is free under `from`
/// binders, or nothing where an index would not fit in 64 bits.
pub open spec fn spec_shift(t: TermView, by: nat, from: nat) -> Option<TermView>
    decreases t,
{
    match t {
        TermView::Var(pos, name, index) => {
            if index < from {
                Some(t)
            } else if index + by <= u64::MAX {
                Some(TermView::Var(pos, name, (index + by) as u64))
            } else {
                None
            }
        },
        TermView::Lam(pos, name, body) => match spec_shift(*body, by, from + 1) {
            Some(body) => Some(TermView::Lam(pos, name, Box::new(body))),
            None => None,
        },
        TermView::App(pos, function, argument) => match (
            spec_shift(*function, by, from),
            spec_shift(*argument, by, from),
        ) {
            (Some(function), Some(argument)) => Some(
                TermView::App(pos, Box::new(function), Box::new(argument)),
            ),
            _ => None,
        },
        TermView::All(pos, uses, name, domain, image) => match (
            spec_shift(*domain, by, from),
            spec_shift(*image, by, from + 1),
        ) {
            (Some(domain), Some(image)) => Some(
                TermView::All(pos, uses, name, Box::new(domain), Box::new(image)),
            ),
            _ => None,
        },
        TermView::Slf(pos, name, body) => match spec_shift(*body, by, from + 1) {
            Some(body) => Some(TermView::Slf(pos, name, Box::new(body))),
            None => None,
        },
        TermView::Dat(pos, body) => match spec_shift(*body, by, from) {
            Some(body) => Some(TermView::Dat(pos, Box::new(body))),
            None => None,
        },
        TermView::Cse(pos, body) => match spec_shift(*body, by, from) {
            Some(body) => Some(TermView::Cse(pos, Box::new(body))),
            None => None,
        },
        TermView::Ref(pos, name, def, ast) => Some(t),
        TermView::Let(pos, recursive, uses, name, typ, value, body) => match (
            spec_shift(*typ, by, from),
            spec_shift(*value, by, from),
            spec_shift(*body, by, from + 1),
        ) {
            (Some(typ), Some(value), Some(body)) => Some(
                TermView::Let(
                    pos,
                    recursive,
                    uses,
                    name,
                    Box::new(typ),
                    Box::new(value),
                    Box::new(body),
                ),
            ),
            _ => None,
        },
        TermView::Typ(pos) => Some(t),
        TermView::Ann(pos, typ, value) => match (
            spec_shift(*typ, by, from),
            spec_shift(*value, by, from),
        ) {
            (Some(typ), Some(value)) => Some(TermView::Ann(pos, Box::new(typ), Box::new(value))),
            _ => None,
        },
        TermView::Lit(pos, literal) => Some(t),
        TermView::LTy(pos, typ) => Some(t),
        TermView::Opr(pos, op) => Some(t),
        TermView::Rec(pos) => Some(t),
    }
}

/// What takes the place of a leaf of a term.
pub enum Filling {
    /// The variable that is free under no binder is replaced by a term, and
    /// the variables above it come down by one.
    Variable(TermView),
    /// The references to the recursive definition around the term are
    /// replaced by a term.
    Recursion(TermView),
}

/// The term `t`, which stands under `depth` binders, with its leaves filled.
/// What is filled in is shifted over those binders, of which there are no
/// more than 64 bits count. The value and the body of a recursive local
/// definition have their own references, which stay.
pub open spec fn spec_fill(t: TermView, depth: nat, filling: Filling) -> Option<TermView>
    decreases t,
{
    match t {
        TermView::Var(pos, name, index) => match filling {
            Filling::Variable(x) => {
                if index == depth {
                    spec_shift(x, depth, 0)
                } else if index > depth {
                    Some(TermView::Var(pos, name, (index - 1) as u64))
                } else {
                    Some(t)
                }
            },
            Filling::Recursion(_) => Some(t),
        },
        TermView::Rec(pos) => match filling {
            Filling::Variable(_) => Some(t),
            Filling::Recursion(x) => {
                if depth <= u64::MAX {
                    spec_shift(x, depth, 0)
                } else {
                    None
                }
            },
        },
        TermView::Let(pos, recursive, uses, name, typ, value, body) => {
            if recursive && filling is Recursion {
                match spec_fill(*typ, depth, filling) {
                    Some(typ) => Some(
                        TermView::Let(pos, recursive, uses, name, Box::new(typ), value, body),
                    ),
                    None => None,
                }
            } else {
                match (
                    spec_fill(*typ, depth, filling),
                    spec_fill(*value, depth, filling),
                    spec_fill(*body, depth + 1, filling),
                ) {
                    (Some(typ), Some(value), Some(body)) => Some(
                        TermView::Let(
                            pos,
                            recursive,
                            uses,
                            name,
                            Box::new(typ),
                            Box::new(value),
                            Box::new(body),
                        ),
                    ),
                    _ => None,
                }
            }
        },
        TermView::Lam(pos, name, body) => match spec_fill(*body, depth + 1, filling) {
            Some(body) => Some(TermView::Lam(pos, name, Box::new(body))),
            None => None,
        },
        TermView::App(pos, function, argument) => match (
            spec_fill(*function, depth, filling),
            spec_fill(*argument, depth, filling),
        ) {
            (Some(function), Some(argument)) => Some(
                TermView::App(pos, Box::new(function), Box::new(argument)),
            ),
            _ => None,
        },
        TermView::All(pos, uses, name, domain, image) => match (
            spec_fill(*domain, depth, filling),
            spec_fill(*image, depth + 1, filling),
        ) {
            (Some(domain), Some(image)) => Some(
                TermView::All(pos, uses, name, Box::new(domain), Box::new(image)),
            ),
            _ => None,
        },
        TermView::Slf(pos, name, body) => match spec_fill(*body, depth + 1, filling) {
            Some(body) => Some(TermView::Slf(pos, name, Box::new(body))),
            None => None,
        },
        TermView::Dat(pos, body) => match spec_fill(*body, depth, filling) {
            Some(body) => Some(TermView::Dat(pos, Box::new(body))),
            None => None,
        },
        TermView::Cse(pos, body) => match spec_fill(*body, depth, filling) {
            Some(body) => Some(TermView::Cse(pos, Box::new(body))),
            None => None,
        },
        TermView::Ref(pos, name, def, ast) => Some(t),
        TermView::Typ(pos) => Some(t),
        TermView::Ann(pos, typ, value) => match (
            spec_fill(*typ, depth, filling),
            spec_fill(*value, depth, filling),
        ) {
            (Some(typ), Some(value)) => Some(TermView::Ann(pos, Box::new(typ), Box::new(value))),
            _ => None,
        },
        TermView::Lit(pos, literal) => Some(t),
        TermView::LTy(pos, typ) => Some(t),
        TermView::Opr(pos, op) => Some(t),
    }
}

/// A number of binders, counted as far as 64 bits go.
#[derive(Clone, Copy)]
struct Depth {
    count: u64,
    over: bool,
}

impl Depth {
    fn zero() -> (d: Depth)
        ensures
            d.stands_for(0),
    {
        Depth { count: 0, over: false }
    }

    fn next(self, Ghost(n): Ghost<nat>) -> (d: Depth)
        requires
            self.stands_for(n),
        ensures
            d.stands_for(n + 1),
    {
        if self.over || self.count == u64::MAX {
            Depth { count: self.count, over: true }
        } else {
            Depth { count: self.count + 1, over: false }
        }
    }

    /// Whether this is the count of `n`: `n` itself, or the mark of a
    /// number that is too large to count.
    spec fn stands_for(self, n: nat) -> bool {
        if self.over {
            n > u64::MAX
        } else {
            n == self.count
        }
    }
}

fn shift_at(t: &Term, by: u64, from: Depth, Ghost(n): Ghost<nat>) -> (r: Option<Term>)
    requires
        from.stands_for(n),
    ensures
        match r {
            Some(x) => spec_shift(t@, by as nat, n) == Some(x@),
            None => spec_shift(t@, by as nat, n) is None,
        },
    decreases t,
{
    match t {
        Term::Var(pos, name, index) => {
            if from.over || *index < from.count {
                Some(t.clone())
            } else if *index <= u64::MAX - by {
                Some(Term::Var(pos.clone(), name.clone(), *index + by))
            } else {
                None
            }
        },
        Term::Lam(pos, name, body) => {
            let body = match shift_at(&**body, by, from.next(Ghost(n)), Ghost(n + 1)) {
                Some(x) => x,
                None => {
                    return None;
                },
            };
            Some(Term::Lam(pos.clone(), name.clone(), Box::new(body)))
        },
        Term::App(pos, function, argument) => {
            let function = match shift_at(&**function, by, from, Ghost(n)) {
                Some(x) => x,
                None => {
                    return None;
                },
            };
            let argument = match shift_at(&**argument, by, from, Ghost(n)) {
                Some(x) => x,
                None => {
                    return None;
                },
            };
            Some(Term::App(pos.clone(), Box::new(function), Box::new(argument)))
        },
        Term::All(pos, uses, name, domain, image) => {
            let domain = match shift_at(&**domain, by, from, Ghost(n)) {
                Some(x) => x,
                None => {
                    return None;
                },
            };
            let image = match shift_at(&**image, by, from.next(Ghost(n)), Ghost(n + 1)) {
                Some(x) => x,
                None => {
                    return None;
                },
            };
            Some(Term::All(pos.clone(), *uses, name.clone(), Box::new(domain), Box::new(image)))
        },
        Term::Slf(pos, name, body) => {
            let body = match shift_at(&**body, by, from.next(Ghost(n)), Ghost(n + 1)) {
                Some(x) => x,
                None => {
                    return None;
                },
            };
            Some(Term::Slf(pos.clone(), name.clone(), Box::new(body)))
        },
        Term::Dat(pos, body) => {
            let body = match shift_at(&**body, by, from, Ghost(n)) {
                Some(x) => x,
                None => {
                    return None;
                },
            };
            Some(Term::Dat(pos.clone(), Box::new(body)))
        },
        Term::Cse(pos, body) => {
            let body = match shift_at(&**body, by, from, Ghost(n)) {
                Some(x) => x,
                None => {
                    return None;
                },
            };
            Some(Term::Cse(pos.clone(), Box::new(body)))
        },
        Term::Ref(pos, name, def, ast) => Some(t.clone()),
        Term::Let(pos, recursive, uses, name, typ, value, body) => {
            let typ = match shift_at(&**typ, by, from, Ghost(n)) {
                Some(x) => x,
                None => {
                    return None;
                },
            };
            let value = match shift_at(&**value, by, from, Ghost(n)) {
                Some(x) => x,
                None => {
                    return None;
                },
            };
            let body = match shift_at(&**body, by, from.next(Ghost(n)), Ghost(n + 1)) {
                Some(x) => x,
                None => {
                    return None;
                },
            };
            Some(
                Term::Let(
                    pos.clone(),
                    *recursive,
                    *uses,
                    name.clone(),
                    Box::new(typ),
                    Box::new(value),
                    Box::new(body),
                ),
            )
        },
        Term::Typ(pos) => Some(t.clone()),
        Term::Ann(pos, typ, value) => {
            let typ = match shift_at(&**typ, by, from, Ghost(n)) {
                Some(x) => x,
                None => {
                    return None;
                },
            };
            let value = match shift_at(&**value, by, from, Ghost(n)) {
                Some(x) => x,
                None => {
                    return None;
                },
            };
            Some(Term::Ann(pos.clone(), Box::new(typ), Box::new(value)))
        },
        Term::Lit(pos, literal) => Some(t.clone()),
        Term::LTy(pos, typ) => Some(t.clone()),
        Term::Opr(pos, op) => Some(t.clone()),
        Term::Rec(pos) => Some(t.clone()),
    }
}

/// The term with `by` added to every variable that is free under `from`
/// binders, or nothing where an index would not fit in 64 bits.
pub fn shift(t: &Term, by: u64, from: u64) -> (r: Option<Term>)
    ensures
        match r {
            Some(x) => spec_shift(t@, by as nat, from as nat) == Some(x@),
            None => spec_shift(t@, by as nat, from as nat) is None,
        },
{
    shift_at(t, by, Depth { count: from, over: false }, Ghost(from as nat))
}

/// What takes the place of a leaf of a term.
enum Fill<'a> {
    Variable(&'a Term),
    Recursion(&'a Term),
}

impl<'a> Fill<'a> {
    spec fn view(self) -> Filling {
        match self {
            Fill::Variable(x) => Filling::Variable(x@),
            Fill::Recursion(x) => Filling::Recursion(x@),
        }
    }
}

fn fill_at<'a>(
    t: &Term,
    depth: Depth,
    filling: &Fill<'a>,
    Ghost(n): Ghost<nat>,
) -> (r: Option<Term>)
    requires
        depth.stands_for(n),
    ensures
        match r {
            Some(x) => spec_fill(t@, n, filling.view()) == Some(x@),
            None => spec_fill(t@, n, filling.view()) is None,
        },
    decreases t,
{
    match t {
        Term::Var(pos, name, index) => match filling {
            Fill::Variable(x) => {
                if depth.over {
                    Some(t.clone())
                } else if *index == depth.count {
                    shift(x, depth.count, 0)
                } else if *index > depth.count {
                    Some(Term::Var(pos.clone(), name.clone(), *index - 1))
                } else {
                    Some(t.clone())
                }
            },
            Fill::Recursion(_) => Some(t.clone()),
        },
        Term::Rec(_) => match filling {
            Fill::Variable(_) => Some(t.clone()),
            Fill::Recursion(x) => {
                if depth.over {
                    None
                } else {
                    shift(x, depth.count, 0)
                }
            },
        },
        Term::Let(pos, recursive, uses, name, typ, value, body) => {
            let own: bool = *recursive && match filling {
                Fill::Recursion(_) => true,
                Fill::Variable(_) => false,
            };
            let typ = match fill_at(&**typ, depth, filling, Ghost(n)) {
                Some(x) => x,
                None => {
                    return None;
                },
            };
            if own {
                return Some(
                    Term::Let(
                        pos.clone(),
                        *recursive,
                        *uses,
                        name.clone(),
                        Box::new(typ),
                        Box::new((**value).clone()),
                        Box::new((**body).clone()),
                    ),
                );
            }
            let value = match fill_at(&**value, depth, filling, Ghost(n)) {
                Some(x) => x,
                None => {
                    return None;
                },
            };
            let body = match fill_at(&**body, depth.next(Ghost(n)), filling, Ghost(n + 1)) {
                Some(x) => x,
                None => {
                    return None;
                },
            };
            Some(
                Term::Let(
                    pos.clone(),
                    *recursive,
                    *uses,
                    name.clone(),
                    Box::new(typ),
                    Box::new(value),
                    Box::new(body),
                ),
            )
        },
        Term::Lam(pos, name, body) => {
            let body = match fill_at(&**body, depth.next(Ghost(n)), filling, Ghost(n + 1)) {
                Some(x) => x,
                None => {
                    return None;
                },
            };
            Some(Term::Lam(pos.clone(), name.clone(), Box::new(body)))
        },
        Term::App(pos, function, argument) => {
            let function = match fill_at(&**function, depth, filling, Ghost(n)) {
                Some(x) => x,
                None => {
                    return None;
                },
            };
            let argument = match fill_at(&**argument, depth, filling, Ghost(n)) {
                Some(x) => x,
                None => {
                    return None;
                },
            };
            Some(Term::App(pos.clone(), Box::new(function), Box::new(argument)))
        },
        Term::All(pos, uses, name, domain, image) => {
            let domain = match fill_at(&**domain, depth, filling, Ghost(n)) {
                Some(x) => x,
                None => {
                    return None;
                },
            };
            let image = match fill_at(&**image, depth.next(Ghost(n)), filling, Ghost(n + 1)) {
                Some(x) => x,
                None => {
                    return None;
                },
            };
            Some(Term::All(pos.clone(), *uses, name.clone(), Box::new(domain), Box::new(image)))
        },
        Term::Slf(pos, name, body) => {
            let body = match fill_at(&**body, depth.next(Ghost(n)), filling, Ghost(n + 1)) {
                Some(x) => x,
                None => {
                    return None;
                },
            };
            Some(Term::Slf(pos.clone(), name.clone(), Box::new(body)))
        },
        Term::Dat(pos, body) => {
            let body = match fill_at(&**body, depth, filling, Ghost(n)) {
                Some(x) => x,
                None => {
                    return None;
                },
            };
            Some(Term::Dat(pos.clone(), Box::new(body)))
        },
        Term::Cse(pos, body) => {
            let body = match fill_at(&**body, depth, filling, Ghost(n)) {
                Some(x) => x,
                None => {
                    return None;
                },
            };
            Some(Term::Cse(pos.clone(), Box::new(body)))
        },
        Term::Ref(pos, name, def, ast) => Some(t.clone()),
        Term::Typ(pos) => Some(t.clone()),
        Term::Ann(pos, typ, value) => {
            let typ = match fill_at(&**typ, depth, filling, Ghost(n)) {
                Some(x) => x,
                None => {
                    return None;
                },
            };
            let value = match fill_at(&**value, depth, filling, Ghost(n)) {
                Some(x) => x,
                None => {
                    return None;
                },
            };
            Some(Term::Ann(pos.clone(), Box::new(typ), Box::new(value)))
        },
        Term::Lit(pos, literal) => Some(t.clone()),
        Term::LTy(pos, typ) => Some(t.clone()),
        Term::Opr(pos, op) => Some(t.clone()),
    }
}

/// What one step at the head of a term gives.
pub enum Step {
    /// No step: the term is in weak head normal form, or it is stuck.
    Done,
    /// The term after the step.
    Next(TermView),
    /// The step is in error.
    Fail(IpldErrorView),
}

/// The recursive local definition as a term of its own: its value under
/// its name.
pub open spec fn spec_fixpoint(t: TermView) -> TermView {
    match t {
        TermView::Let(pos, _, uses, name, typ, value, _) => TermView::Let(
            pos,
            true,
            uses,
            name,
            typ,
            value,
            Box::new(TermView::Var(None, name, 0)),
        ),
        _ => t,
    }
}

/// The step of a term that is a function applied to an argument.
pub open spec fn beta_step(body: TermView, argument: TermView) -> Step {
    match spec_fill(body, 0, Filling::Variable(argument)) {
        Some(r) => Step::Next(r),
        None => Step::Fail(IpldErrorView::InvariantViolated),
    }
}

/// The step of an operation of one argument that is applied to `argument`,
/// whose own step is `inside`.
pub open spec fn unary_step(
    pos: Option<PositionView>,
    function: TermView,
    op: PrimOp,
    argument: TermView,
    inside: Step,
) -> Step {
    match inside {
        Step::Fail(e) => Step::Fail(e),
        Step::Next(a) => Step::Next(TermView::App(pos, Box::new(function), Box::new(a))),
        Step::Done => match argument {
            TermView::Lit(_, x) => match op.spec_apply1(x) {
                Some(r) => Step::Next(TermView::Lit(None, r)),
                None => Step::Done,
            },
            _ => Step::Done,
        },
    }
}

/// The step of an operation of two arguments that is applied to `first`
/// and `second`, whose own steps are `inside_first` and `inside_second`.
pub open spec fn binary_step(
    pos: Option<PositionView>,
    inner: Option<PositionView>,
    head: TermView,
    op: PrimOp,
    first: TermView,
    second: TermView,
    inside_first: Step,
    inside_second: Step,
) -> Step {
    match inside_first {
        Step::Fail(e) => Step::Fail(e),
        Step::Next(x) => Step::Next(
            TermView::App(
                pos,
                Box::new(TermView::App(inner, Box::new(head), Box::new(x))),
                Box::new(second),
            ),
        ),
        Step::Done => match inside_second {
            Step::Fail(e) => Step::Fail(e),
            Step::Next(y) => Step::Next(
                TermView::App(
                    pos,
                    Box::new(TermView::App(inner, Box::new(head), Box::new(first))),
                    Box::new(y),
                ),
            ),
            Step::Done => match (first, second) {
                (TermView::Lit(_, x), TermView::Lit(_, y)) => match op.spec_apply2(x, y) {
                    Some(r) => Step::Next(TermView::Lit(None, r)),
                    None => Step::Done,
                },
                _ => Step::Done,
            },
        },
    }
}

/// The step of an application, from the steps of its parts: of the
/// function, of the argument, and of the first argument where the function
/// is itself an application.
pub open spec fn app_step(
    pos: Option<PositionView>,
    function: TermView,
    argument: TermView,
    inside_function: Step,
    inside_argument: Step,
    inside_first: Step,
) -> Step {
    match inside_function {
        Step::Fail(e) => Step::Fail(e),
        Step::Next(f) => Step::Next(TermView::App(pos, Box::new(f), Box::new(argument))),
        Step::Done => match function {
            TermView::Lam(_, _, body) => beta_step(*body, argument),
            TermView::Opr(_, op) => {
                if op.spec_arity() == 1 {
                    unary_step(pos, function, op, argument, inside_argument)
                } else {
                    Step::Done
                }
            },
            TermView::App(inner, head, first) => match *head {
                TermView::Opr(_, op) => {
                    if op.spec_arity() == 2 {
                        binary_step(
                            pos,
                            inner,
                            *head,
                            op,
                            *first,
                            argument,
                            inside_first,
                            inside_argument,
                        )
                    } else {
                        Step::Done
                    }
                },
                _ => Step::Done,
            },
            _ => Step::Done,
        },
    }
}

/// The step of the elimination of a self type, from the step of what it
/// eliminates.
pub open spec fn case_step(pos: Option<PositionView>, body: TermView, inside: Step) -> Step {
    match inside {
        Step::Fail(e) => Step::Fail(e),
        Step::Next(b) => Step::Next(TermView::Cse(pos, Box::new(b))),
        Step::Done => match body {
            TermView::Dat(_, x) => Step::Next(*x),
            _ => Step::Done,
        },
    }
}

/// The step of a local definition.
pub open spec fn let_step(t: TermView) -> Step {
    match t {
        TermView::Let(_, recursive, _, _, _, value, body) => {
            let unrolled = if recursive {
                (
                    spec_fill(*value, 0, Filling::Recursion(spec_fixpoint(t))),
                    spec_fill(*body, 1, Filling::Recursion(spec_fixpoint(t))),
                )
            } else {
                (Some(*value), Some(*body))
            };
            match unrolled {
                (Some(v), Some(b)) => beta_step(b, v),
                _ => Step::Fail(IpldErrorView::InvariantViolated),
            }
        },
        _ => Step::Done,
    }
}

/// One step of reduction at the head of a term, the leftmost and outermost
/// that there is:
/// - an application steps in its function first; a function applied to an
///   argument becomes its body with the argument for its variable; an
///   operation that has all its arguments steps in them, the first one
///   first, and then becomes its result on them where they are literals
///   and it has one;
/// - the elimination of a self type steps in what it eliminates, and with
///   an introduction there it becomes what was introduced;
/// - a definition becomes its term, and it is an unresolved reference
///   where no definition in scope has its block;
/// - a local definition becomes its body with the value for its variable,
///   and where it is recursive with the definition itself for every
///   reference to it;
/// - an annotation becomes its value; an operation without arguments
///   becomes its result;
/// - a reference to a recursive definition outside of one violates the
///   invariant of terms, and so does an index that grows out of 64 bits.
pub open spec fn spec_step(t: TermView, defs: Seq<BindingView>) -> Step
    decreases t,
{
    match t {
        TermView::App(pos, function, argument) => app_step(
            pos,
            *function,
            *argument,
            spec_step(*function, defs),
            spec_step(*argument, defs),
            match *function {
                TermView::App(_, _, first) => spec_step(*first, defs),
                _ => Step::Done,
            },
        ),
        TermView::Cse(pos, body) => case_step(pos, *body, spec_step(*body, defs)),
        TermView::Ref(_, _, def, _) => match find_cid(defs, def) {
            Some(b) => Step::Next(b.def.term),
            None => Step::Fail(IpldErrorView::UnresolvedRef(def)),
        },
        TermView::Let(_, _, _, _, _, _, _) => let_step(t),
        TermView::Ann(_, _, value) => Step::Next(*value),
        TermView::Opr(_, op) => match op.spec_apply0() {
            Some(r) => Step::Next(TermView::Lit(None, r)),
            None => Step::Done,
        },
        TermView::Rec(_) => Step::Fail(IpldErrorView::InvariantViolated),
        _ => Step::Done,
    }
}

/// The weak head normal form of a term, if `fuel` steps lead to it, and
/// nothing if they do not.
pub open spec fn spec_whnf(t: TermView, defs: Seq<BindingView>, fuel: nat) -> Result<
    Option<TermView>,
    IpldErrorView,
>
    decreases fuel,
{
    match spec_step(t, defs) {
        Step::Done => Ok(Some(t)),
        Step::Fail(e) => Err(e),
        Step::Next(n) => {
            if fuel == 0 {
                Ok(None)
            } else {
                spec_whnf(n, defs, (fuel - 1) as nat)
            }
        },
    }
}

/// What one step at the head of a term gave.
pub enum Stepped {
    Done,
    Next(Term),
    Fail(IpldError),
}

impl View for Stepped {
    type V = Step;

    open spec fn view(&self) -> Step {
        match self {
            Stepped::Done => Step::Done,
            Stepped::Next(t) => Step::Next(t@),
            Stepped::Fail(e) => Step::Fail(e@),
        }
    }
}

/// The term with `x` for the variable that is free under no binder.
pub fn substitute(body: &Term, x: &Term) -> (r: Option<Term>)
    ensures
        match r {
            Some(t) => spec_fill(body@, 0, Filling::Variable(x@)) == Some(t@),
            None => spec_fill(body@, 0, Filling::Variable(x@)) is None,
        },
{
    fill_at(body, Depth::zero(), &Fill::Variable(x), Ghost(0))
}

fn fixpoint(t: &Term) -> (r: Term)
    ensures
        r@ == spec_fixpoint(t@),
{
    proof {
        reveal_with_fuel(<Term as View>::view, 2);
    }
    match t {
        Term::Let(pos, _, uses, name, typ, value, _) => Term::Let(
            pos.clone(),
            true,
            *uses,
            name.clone(),
            Box::new((**typ).clone()),
            Box::new((**value).clone()),
            Box::new(Term::Var(Pos(None), name.clone(), 0)),
        ),
        _ => t.clone(),
    }
}

fn step_let(t: &Term) -> (r: Stepped)
    ensures
        r@ == let_step(t@),
{
    match t {
        Term::Let(_, recursive, _, _, _, value, body) => {
            let (v, b) = if *recursive {
                let fix = fixpoint(t);
                let one = Depth::zero().next(Ghost(0));
                let v = fill_at(&**value, Depth::zero(), &Fill::Recursion(&fix), Ghost(0));
                let b = fill_at(&**body, one, &Fill::Recursion(&fix), Ghost(1));
                match (v, b) {
                    (Some(v), Some(b)) => (v, b),
                    _ => {
                        return Stepped::Fail(IpldError::InvariantViolated);
                    },
                }
            } else {
                ((**value).clone(), (**body).clone())
            };
            step_beta(&b, &v)
        },
        _ => Stepped::Done,
    }
}

fn step_beta(body: &Term, argument: &Term) -> (r: Stepped)
    ensures
        r@ == beta_step(body@, argument@),
{
    match substitute(body, argument) {
        Some(r) => Stepped::Next(r),
        None => Stepped::Fail(IpldError::InvariantViolated),
    }
}

/// The parts of an application.
fn application(t: &Term) -> (r: Option<(&Pos, &Term, &Term)>)
    ensures
        match r {
            Some((pos, function, argument)) => t@ == TermView::App(
                pos@,
                Box::new(function@),
                Box::new(argument@),
            ) && decreases_to!(t => function) && decreases_to!(t => argument),
            None => !(t@ is App),
        },
{
    match t {
        Term::App(pos, function, argument) => Some((pos, &**function, &**argument)),
        _ => None,
    }
}

/// The operation that a term is.
fn operation(t: &Term) -> (r: Option<PrimOp>)
    ensures
        match r {
            Some(op) => t@ matches TermView::Opr(_, o) && o == op,
            None => !(t@ is Opr),
        },
{
    match t {
        Term::Opr(_, op) => Some(*op),
        _ => None,
    }
}

/// The literal that a term is.
fn literal(t: &Term) -> (r: Option<&Literal>)
    ensures
        match r {
            Some(x) => t@ matches TermView::Lit(_, l) && l == x@,
            None => !(t@ is Lit),
        },
{
    match t {
        Term::Lit(_, x) => Some(x),
        _ => None,
    }
}

/// The body of a function.
fn function_body(t: &Term) -> (r: Option<&Term>)
    ensures
        match r {
            Some(b) => t@ matches TermView::Lam(_, _, body) && *body == b@,
            None => !(t@ is Lam),
        },
{
    match t {
        Term::Lam(_, _, body) => Some(&**body),
        _ => None,
    }
}

/// What a term introduces, where it is an introduction.
fn introduced(t: &Term) -> (r: Option<&Term>)
    ensures
        match r {
            Some(x) => t@ matches TermView::Dat(_, body) && *body == x@,
            None => !(t@ is Dat),
        },
{
    match t {
        Term::Dat(_, body) => Some(&**body),
        _ => None,
    }
}

fn apply(pos: &Pos, function: Term, argument: Term) -> (t: Term)
    ensures
        t@ == TermView::App(pos@, Box::new(function@), Box::new(argument@)),
{
    Term::App(pos.clone(), Box::new(function), Box::new(argument))
}

fn result(x: Option<Literal>) -> (r: Stepped)
    ensures
        r@ == (match x {
            Some(l) => Step::Next(TermView::Lit(None, l@)),
            None => Step::Done,
        }),
{
    match x {
        Some(l) => Stepped::Next(Term::Lit(Pos(None), l)),
        None => Stepped::Done,
    }
}

fn step_unary(pos: &Pos, function: &Term, op: PrimOp, argument: &Term, inside: Stepped) -> (r:
    Stepped)
    ensures
        r@ == unary_step(pos@, function@, op, argument@, inside@),
{
    match inside {
        Stepped::Fail(e) => Stepped::Fail(e),
        Stepped::Next(a) => Stepped::Next(apply(pos, function.clone(), a)),
        Stepped::Done => match literal(argument) {
            Some(x) => result(op.apply1(x.clone())),
            None => Stepped::Done,
        },
    }
}

fn step_operands(op: PrimOp, first: &Term, second: &Term) -> (r: Stepped)
    ensures
        r@ == (match (first@, second@) {
            (TermView::Lit(_, x), TermView::Lit(_, y)) => match op.spec_apply2(x, y) {
                Some(r) => Step::Next(TermView::Lit(None, r)),
                None => Step::Done,
            },
            _ => Step::Done,
        }),
{
    match (literal(first), literal(second)) {
        (Some(x), Some(y)) => result(op.apply2(x.clone(), y.clone())),
        _ => Stepped::Done,
    }
}

fn step_binary(
    pos: &Pos,
    inner: &Pos,
    head: &Term,
    op: PrimOp,
    first: &Term,
    second: &Term,
    inside_first: Stepped,
    inside_second: Stepped,
) -> (r: Stepped)
    ensures
        r@ == binary_step(
            pos@,
            inner@,
            head@,
            op,
            first@,
            second@,
            inside_first@,
            inside_second@,
        ),
{
    match inside_first {
        Stepped::Fail(e) => Stepped::Fail(e),
        Stepped::Next(x) => Stepped::Next(
            apply(pos, apply(inner, head.clone(), x), second.clone()),
        ),
        Stepped::Done => match inside_second {
            Stepped::Fail(e) => Stepped::Fail(e),
            Stepped::Next(y) => Stepped::Next(
                apply(pos, apply(inner, head.clone(), first.clone()), y),
            ),
            Stepped::Done => step_operands(op, first, second),
        },
    }
}

/// The step of an application whose function admits none.
fn step_applied(t: &Term, defs: &Defs) -> (r: Stepped)
    requires
        t matches Term::App(_, function, _) && spec_step(function@, defs@) is Done,
    ensures
        r@ == spec_step(t@, defs@),
    decreases t, 0nat,
{
    let (pos, function, argument) = match application(t) {
        Some(parts) => parts,
        None => {
            return Stepped::Done;
        },
    };
    if let Some(body) = function_body(function) {
        return step_beta(body, argument);
    }
    if let Some(op) = operation(function) {
        if op.arity() == 1 {
            let inside = step(argument, defs);
            return step_unary(pos, function, op, argument, inside);
        }
        return Stepped::Done;
    }
    if let Some((inner, head, first)) = application(function) {
        if let Some(op) = operation(head) {
            if op.arity() == 2 {
                let inside_first = step(first, defs);
                let inside_second = step(argument, defs);
                return step_binary(
                    pos,
                    inner,
                    head,
                    op,
                    first,
                    argument,
                    inside_first,
                    inside_second,
                );
            }
        }
    }
    Stepped::Done
}

/// One step of reduction at the head of a term.
pub fn step(t: &Term, defs: &Defs) -> (r: Stepped)
    ensures
        r@ == spec_step(t@, defs@),
    decreases t, 1nat,
{
    match t {
        Term::App(pos, function, argument) => match step(&**function, defs) {
            Stepped::Fail(e) => Stepped::Fail(e),
            Stepped::Next(f) => Stepped::Next(apply(pos, f, (**argument).clone())),
            Stepped::Done => step_applied(t, defs),
        },
        Term::Cse(pos, body) => {
            let inside = step(&**body, defs);
            step_case(pos, &**body, inside)
        },
        Term::Ref(_, _, def, _) => match defs.resolve(def) {
            Ok(d) => Stepped::Next(d.term.clone()),
            Err(e) => Stepped::Fail(e),
        },
        Term::Let(_, _, _, _, _, _, _) => step_let(t),
        Term::Ann(_, _, value) => Stepped::Next((**value).clone()),
        Term::Opr(_, op) => result(op.apply0()),
        Term::Rec(_) => Stepped::Fail(IpldError::InvariantViolated),
        _ => Stepped::Done,
    }
}

fn step_case(pos: &Pos, body: &Term, inside: Stepped) -> (r: Stepped)
    ensures
        r@ == case_step(pos@, body@, inside@),
{
    match inside {
        Stepped::Fail(e) => Stepped::Fail(e),
        Stepped::Next(b) => Stepped::Next(Term::Cse(pos.clone(), Box::new(b))),
        Stepped::Done => match introduced(body) {
            Some(x) => Stepped::Next(x.clone()),
            None => Stepped::Done,
        },
    }
}

/// What reduction with so many steps gave: a term, or nothing where the
/// steps ran out, or an error.
pub open spec fn reduced(r: Result<Option<Term>, IpldError>) -> Result<
    Option<TermView>,
    IpldErrorView,
> {
    match r {
        Ok(Some(t)) => Ok(Some(t@)),
        Ok(None) => Ok(None),
        Err(e) => Err(e@),
    }
}

/// The weak head normal form of a term, if `fuel` steps lead to it, and
/// nothing if they do not.
pub fn whnf(t: Term, defs: &Defs, fuel: u64) -> (r: Result<Option<Term>, IpldError>)
    ensures
        reduced(r) == spec_whnf(t@, defs@, fuel as nat),
{
    let mut current = t;
    let mut left: u64 = fuel;
    loop
        invariant
            spec_whnf(current@, defs@, left as nat) == spec_whnf(t@, defs@, fuel as nat),
        decreases left,
    {
        match step(&current, defs) {
            Stepped::Done => {
                return Ok(Some(current));
            },
            Stepped::Fail(e) => {
                return Err(e);
            },
            Stepped::Next(n) => {
                if left == 0 {
                    return Ok(None);
                }
                current = n;
                left = left - 1;
            },
        }
    }
}

/// A weak head normal form, where there is one, admits no step.
pub proof fn lemma_whnf_is_done(t: TermView, defs: Seq<BindingView>, fuel: nat)
    ensures
        spec_whnf(t, defs, fuel) matches Ok(Some(w)) ==> spec_step(w, defs) is Done,
    decreases fuel,
{
    match spec_step(t, defs) {
        Step::Next(n) => {
            if fuel > 0 {
                lemma_whnf_is_done(n, defs, (fuel - 1) as nat);
            }
        },
        _ => {},
    }
}

/// The elimination of an introduction is what was introduced, in one step.
pub proof fn lemma_case_of_data(t: TermView, defs: Seq<BindingView>)
    requires
        t matches TermView::Cse(_, body) && *body is Dat,
    ensures
        spec_step(t, defs) == Step::Next(*(*t->Cse_1)->Dat_1),
{
    reveal_with_fuel(spec_step, 2);
}

/// An operation on two literals on which it has no result stays as it is:
/// the application is in weak head normal form.
pub proof fn lemma_no_result_is_stuck(
    op: PrimOp,
    x: LiteralView,
    y: LiteralView,
    defs: Seq<BindingView>,
    fuel: nat,
)
    requires
        op.spec_arity() == 2,
        op.spec_apply2(x, y) is None,
    ensures
        ({
            let t = TermView::App(
                None,
                Box::new(
                    TermView::App(
                        None,
                        Box::new(TermView::Opr(None, op)),
                        Box::new(TermView::Lit(None, x)),
                    ),
                ),
                Box::new(TermView::Lit(None, y)),
            );
            spec_whnf(t, defs, fuel) == Ok::<Option<TermView>, IpldErrorView>(Some(t))
        }),
{
    reveal_with_fuel(spec_step, 4);
    crate::prim::u16::lemma_arity(op->U16_0);
}

/// What normalization makes of a term in weak head normal form: the term
/// with the normal forms of the terms directly under it, the first of them
/// first.
pub open spec fn spec_norm_under(t: TermView, defs: Seq<BindingView>, fuel: nat) -> Result<
    Option<TermView>,
    IpldErrorView,
>
    decreases fuel, 1nat,
{
    match t {
        TermView::Var(pos, name, index) => Ok(Some(t)),
        TermView::Lam(pos, name, body) => {
            match spec_norm(*body, defs, fuel) {
                Err(e) => Err(e),
                Ok(None) => Ok(None),
                Ok(Some(body)) => {
                    Ok(Some(TermView::Lam(pos, name, Box::new(body))))
                },
            }
        },
        TermView::App(pos, function, argument) => {
            match spec_norm(*function, defs, fuel) {
                Err(e) => Err(e),
                Ok(None) => Ok(None),
                Ok(Some(function)) => {
                    match spec_norm(*argument, defs, fuel) {
                        Err(e) => Err(e),
                        Ok(None) => Ok(None),
                        Ok(Some(argument)) => {
                            Ok(Some(TermView::App(pos, Box::new(function), Box::new(argument))))
                        },
                    }
                },
            }
        },
        TermView::All(pos, uses, name, domain, image) => {
            match spec_norm(*domain, defs, fuel) {
                Err(e) => Err(e),
                Ok(None) => Ok(None),
                Ok(Some(domain)) => {
                    match spec_norm(*image, defs, fuel) {
                        Err(e) => Err(e),
                        Ok(None) => Ok(None),
                        Ok(Some(image)) => {
                            Ok(
                                Some(
                                    TermView::All(
                                        pos,
                                        uses,
                                        name,
                                        Box::new(domain),
                                        Box::new(image),
                                    ),
                                ),
                            )
                        },
                    }
                },
            }
        },
        TermView::Slf(pos, name, body) => {
            match spec_norm(*body, defs, fuel) {
                Err(e) => Err(e),
                Ok(None) => Ok(None),
                Ok(Some(body)) => {
                    Ok(Some(TermView::Slf(pos, name, Box::new(body))))
                },
            }
        },
        TermView::Dat(pos, body) => {
            match spec_norm(*body, defs, fuel) {
                Err(e) => Err(e),
                Ok(None) => Ok(None),
                Ok(Some(body)) => {
                    Ok(Some(TermView::Dat(pos, Box::new(body))))
                },
            }
        },
        TermView::Cse(pos, body) => {
            match spec_norm(*body, defs, fuel) {
                Err(e) => Err(e),
                Ok(None) => Ok(None),
                Ok(Some(body)) => {
                    Ok(Some(TermView::Cse(pos, Box::new(body))))
                },
            }
        },
        TermView::Ref(pos, name, def, ast) => Ok(Some(t)),
        TermView::Let(pos, recursive, uses, name, typ, value, body) => {
            match spec_norm(*typ, defs, fuel) {
                Err(e) => Err(e),
                Ok(None) => Ok(None),
                Ok(Some(typ)) => {
                    match spec_norm(*value, defs, fuel) {
                        Err(e) => Err(e),
                        Ok(None) => Ok(None),
                        Ok(Some(value)) => {
                            match spec_norm(*body, defs, fuel) {
                                Err(e) => Err(e),
                                Ok(None) => Ok(None),
                                Ok(Some(body)) => {
                                    Ok(
                                        Some(
                                            TermView::Let(
                                                pos,
                                                recursive,
                                                uses,
                                                name,
                                                Box::new(typ),
                                                Box::new(value),
                                                Box::new(body),
                                            ),
                                        ),
                                    )
                                },
                            }
                        },
                    }
                },
            }
        },
        TermView::Typ(pos) => Ok(Some(t)),
        TermView::Ann(pos, typ, value) => {
            match spec_norm(*typ, defs, fuel) {
                Err(e) => Err(e),
                Ok(None) => Ok(None),
                Ok(Some(typ)) => {
                    match spec_norm(*value, defs, fuel) {
                        Err(e) => Err(e),
                        Ok(None) => Ok(None),
                        Ok(Some(value)) => {
                            Ok(Some(TermView::Ann(pos, Box::new(typ), Box::new(value))))
                        },
                    }
                },
            }
        },
        TermView::Lit(pos, literal) => Ok(Some(t)),
        TermView::LTy(pos, typ) => Ok(Some(t)),
        TermView::Opr(pos, op) => Ok(Some(t)),
        TermView::Rec(pos) => Ok(Some(t)),
    }
}

/// The normal form of a term, if it is reached with at most `fuel` steps
/// at every head and under at most `fuel` constructors, and nothing if it
/// is not: the weak head normal form of the term, with the normal forms of
/// the terms under it.
pub open spec fn spec_norm(t: TermView, defs: Seq<BindingView>, fuel: nat) -> Result<
    Option<TermView>,
    IpldErrorView,
>
    decreases fuel, 0nat,
{
    if fuel == 0 {
        Ok(None)
    } else {
        match spec_whnf(t, defs, fuel) {
            Err(e) => Err(e),
            Ok(None) => Ok(None),
            Ok(Some(w)) => spec_norm_under(w, defs, (fuel - 1) as nat),
        }
    }
}

/// The terms in normal form: no step is left at the head, nor at the head
/// of any term under it.
pub open spec fn spec_normal(t: TermView, defs: Seq<BindingView>) -> bool
    decreases t,
{
    spec_step(t, defs) is Done && match t {
        TermView::Var(_, _, _) => true,
        TermView::Lam(_, _, body) => spec_normal(*body, defs),
        TermView::App(_, function, argument) => spec_normal(*function, defs) && spec_normal(
            *argument,
            defs,
        ),
        TermView::All(_, _, _, domain, image) => spec_normal(*domain, defs) && spec_normal(
            *image,
            defs,
        ),
        TermView::Slf(_, _, body) => spec_normal(*body, defs),
        TermView::Dat(_, body) => spec_normal(*body, defs),
        TermView::Cse(_, body) => spec_normal(*body, defs),
        TermView::Ref(_, _, _, _) => true,
        TermView::Let(_, _, _, _, typ, value, body) => {
            &&& spec_normal(*typ, defs)
            &&& spec_normal(*value, defs)
            &&& spec_normal(*body, defs)
        },
        TermView::Typ(_) => true,
        TermView::Ann(_, typ, value) => spec_normal(*typ, defs) && spec_normal(*value, defs),
        TermView::Lit(_, _) => true,
        TermView::LTy(_, _) => true,
        TermView::Opr(_, _) => true,
        TermView::Rec(_) => true,
    }
}

fn norm_under(t: Term, defs: &Defs, fuel: u64) -> (r: Result<Option<Term>, IpldError>)
    ensures
        reduced(r) == spec_norm_under(t@, defs@, fuel as nat),
    decreases fuel, 1nat,
{
    match t {
        Term::Var(_, _, _) => Ok(Some(t)),
        Term::Lam(pos, name, body) => {
            let body = match norm(*body, defs, fuel) {
                Ok(Some(x)) => x,
                Ok(None) => {
                    return Ok(None);
                },
                Err(e) => {
                    return Err(e);
                },
            };
            Ok(Some(Term::Lam(pos, name, Box::new(body))))
        },
        Term::App(pos, function, argument) => {
            let function = match norm(*function, defs, fuel) {
                Ok(Some(x)) => x,
                Ok(None) => {
                    return Ok(None);
                },
                Err(e) => {
                    return Err(e);
                },
            };
            let argument = match norm(*argument, defs, fuel) {
                Ok(Some(x)) => x,
                Ok(None) => {
                    return Ok(None);
                },
                Err(e) => {
                    return Err(e);
                },
            };
            Ok(Some(Term::App(pos, Box::new(function), Box::new(argument))))
        },
        Term::All(pos, uses, name, domain, image) => {
            let domain = match norm(*domain, defs, fuel) {
                Ok(Some(x)) => x,
                Ok(None) => {
                    return Ok(None);
                },
                Err(e) => {
                    return Err(e);
                },
            };
            let image = match norm(*image, defs, fuel) {
                Ok(Some(x)) => x,
                Ok(None) => {
                    return Ok(None);
                },
                Err(e) => {
                    return Err(e);
                },
            };
            Ok(Some(Term::All(pos, uses, name, Box::new(domain), Box::new(image))))
        },
        Term::Slf(pos, name, body) => {
            let body = match norm(*body, defs, fuel) {
                Ok(Some(x)) => x,
                Ok(None) => {
                    return Ok(None);
                },
                Err(e) => {
                    return Err(e);
                },
            };
            Ok(Some(Term::Slf(pos, name, Box::new(body))))
        },
        Term::Dat(pos, body) => {
            let body = match norm(*body, defs, fuel) {
                Ok(Some(x)) => x,
                Ok(None) => {
                    return Ok(None);
                },
                Err(e) => {
                    return Err(e);
                },
            };
            Ok(Some(Term::Dat(pos, Box::new(body))))
        },
        Term::Cse(pos, body) => {
            let body = match norm(*body, defs, fuel) {
                Ok(Some(x)) => x,
                Ok(None) => {
                    return Ok(None);
                },
                Err(e) => {
                    return Err(e);
                },
            };
            Ok(Some(Term::Cse(pos, Box::new(body))))
        },
        Term::Ref(_, _, _, _) => Ok(Some(t)),
        Term::Let(pos, recursive, uses, name, typ, value, body) => {
            let typ = match norm(*typ, defs, fuel) {
                Ok(Some(x)) => x,
                Ok(None) => {
                    return Ok(None);
                },
                Err(e) => {
                    return Err(e);
                },
            };
            let value = match norm(*value, defs, fuel) {
                Ok(Some(x)) => x,
                Ok(None) => {
                    return Ok(None);
                },
                Err(e) => {
                    return Err(e);
                },
            };
            let body = match norm(*body, defs, fuel) {
                Ok(Some(x)) => x,
                Ok(None) => {
                    return Ok(None);
                },
                Err(e) => {
                    return Err(e);
                },
            };
            Ok(
                Some(
                    Term::Let(
                        pos,
                        recursive,
                        uses,
                        name,
                        Box::new(typ),
                        Box::new(value),
                        Box::new(body),
                    ),
                ),
            )
        },
        Term::Typ(_) => Ok(Some(t)),
        Term::Ann(pos, typ, value) => {
            let typ = match norm(*typ, defs, fuel) {
                Ok(Some(x)) => x,
                Ok(None) => {
                    return Ok(None);
                },
                Err(e) => {
                    return Err(e);
                },
            };
            let value = match norm(*value, defs, fuel) {
                Ok(Some(x)) => x,
                Ok(None) => {
                    return Ok(None);
                },
                Err(e) => {
                    return Err(e);
                },
            };
            Ok(Some(Term::Ann(pos, Box::new(typ), Box::new(value))))
        },
        Term::Lit(_, _) => Ok(Some(t)),
        Term::LTy(_, _) => Ok(Some(t)),
        Term::Opr(_, _) => Ok(Some(t)),
        Term::Rec(_) => Ok(Some(t)),
    }
}

/// The normal form of a term, if it is reached with at most `fuel` steps
/// at every head and under at most `fuel` constructors.
pub fn norm(t: Term, defs: &Defs, fuel: u64) -> (r: Result<Option<Term>, IpldError>)
    ensures
        reduced(r) == spec_norm(t@, defs@, fuel as nat),
    decreases fuel, 0nat,
{
    if fuel == 0 {
        return Ok(None);
    }
    match whnf(t, defs, fuel) {
        Err(e) => Err(e),
        Ok(None) => Ok(None),
        Ok(Some(w)) => norm_under(w, defs, fuel - 1),
    }
}

/// Which constructor a term is made with.
pub open spec fn constructor(t: TermView) -> int {
    match t {
        TermView::Var(_, _, _) => 0,
        TermView::Lam(_, _, _) => 1,
        TermView::App(_, _, _) => 2,
        TermView::All(_, _, _, _, _) => 3,
        TermView::Slf(_, _, _) => 4,
        TermView::Dat(_, _) => 5,
        TermView::Cse(_, _) => 6,
        TermView::Ref(_, _, _, _) => 7,
        TermView::Let(_, _, _, _, _, _, _) => 8,
        TermView::Typ(_) => 9,
        TermView::Ann(_, _, _) => 10,
        TermView::Lit(_, _) => 11,
        TermView::LTy(_, _) => 12,
        TermView::Opr(_, _) => 13,
        TermView::Rec(_) => 14,
    }
}

/// Whether two terms are made with the same constructor, and are the same
/// literal or the same operation where they are one.
pub open spec fn same_head(a: TermView, b: TermView) -> bool {
    &&& constructor(a) == constructor(b)
    &&& a matches TermView::Lit(_, x) ==> b->Lit_1 == x
    &&& a matches TermView::Opr(_, op) ==> b->Opr_1 == op
}

/// Normalization keeps the head of a term that admits no step.
pub proof fn lemma_norm_keeps_head(t: TermView, defs: Seq<BindingView>, fuel: nat)
    requires
        spec_step(t, defs) is Done,
        spec_norm(t, defs, fuel) matches Ok(Some(_)),
    ensures
        same_head(t, spec_norm(t, defs, fuel)->Ok_0->0),
        fuel > 0,
        spec_norm(t, defs, fuel) == spec_norm_under(t, defs, (fuel - 1) as nat),
{
}

/// An operation of one argument that has no step on an argument has none
/// on the normal form of the argument.
proof fn lemma_unary_stays(
    pos: Option<PositionView>,
    op: PrimOp,
    function: TermView,
    argument: TermView,
    normal_argument: TermView,
    defs: Seq<BindingView>,
)
    requires
        unary_step(pos, function, op, argument, spec_step(argument, defs)) is Done,
        same_head(argument, normal_argument),
        spec_step(normal_argument, defs) is Done,
    ensures
        unary_step(pos, function, op, normal_argument, spec_step(normal_argument, defs)) is Done,
{
}

/// An operation of two arguments that has no step on its arguments has
/// none on their normal forms.
proof fn lemma_binary_stays(
    pos: Option<PositionView>,
    inner: Option<PositionView>,
    head: TermView,
    op: PrimOp,
    first: TermView,
    second: TermView,
    normal_first: TermView,
    normal_second: TermView,
    defs: Seq<BindingView>,
)
    requires
        binary_step(
            pos,
            inner,
            head,
            op,
            first,
            second,
            spec_step(first, defs),
            spec_step(second, defs),
        ) is Done,
        same_head(first, normal_first),
        same_head(second, normal_second),
        spec_step(normal_first, defs) is Done,
        spec_step(normal_second, defs) is Done,
    ensures
        binary_step(
            pos,
            inner,
            head,
            op,
            normal_first,
            normal_second,
            spec_step(normal_first, defs),
            spec_step(normal_second, defs),
        ) is Done,
{
}

/// Whether `g` is what became of the function `f` of an application whose
/// argument `a` became `b`: the heads are the same, and where an operation
/// waits for its arguments, they have kept their heads and admit no step.
pub open spec fn kept(
    f: TermView,
    g: TermView,
    a: TermView,
    b: TermView,
    defs: Seq<BindingView>,
) -> bool {
    &&& same_head(f, g)
    &&& spec_step(g, defs) is Done
    &&& spec_step(b, defs) is Done
    &&& spec_step(a, defs) is Done ==> same_head(a, b)
    &&& f matches TermView::App(_, head, first) ==> {
        &&& same_head(*head, *g->App_1)
        &&& spec_step(*g->App_2, defs) is Done
        &&& spec_step(*first, defs) is Done ==> same_head(*first, *g->App_2)
        &&& g->App_0 == f->App_0
    }
}

/// An application that admits no step admits none when its function and
/// its argument are replaced by terms that have kept their heads.
proof fn lemma_app_step_stays(
    pos: Option<PositionView>,
    f: TermView,
    a: TermView,
    g: TermView,
    b: TermView,
    defs: Seq<BindingView>,
)
    requires
        spec_step(TermView::App(pos, Box::new(f), Box::new(a)), defs) is Done,
        kept(f, g, a, b, defs),
    ensures
        spec_step(TermView::App(pos, Box::new(g), Box::new(b)), defs) is Done,
{
    let before = app_step(
        pos,
        f,
        a,
        spec_step(f, defs),
        spec_step(a, defs),
        match f {
            TermView::App(_, _, first) => spec_step(*first, defs),
            _ => Step::Done,
        },
    );
    assert(spec_step(TermView::App(pos, Box::new(f), Box::new(a)), defs) == before);
    assert(spec_step(f, defs) is Done);
    match f {
        TermView::Opr(_, op) => {
            if op.spec_arity() == 1 {
                lemma_unary_stays(pos, op, f, a, b, defs);
            }
        },
        TermView::App(inner, head, first) => {
            match *head {
                TermView::Opr(_, op) => {
                    if op.spec_arity() == 2 {
                        lemma_binary_stays(pos, inner, *head, op, *first, a, *g->App_2, b, defs);
                    }
                },
                _ => {},
            }
        },
        _ => {},
    }
}

/// What becomes of an application in weak head normal form under
/// normalization: the application of what becomes of its parts.
proof fn lemma_norm_of_app(
    pos: Option<PositionView>,
    f: TermView,
    a: TermView,
    defs: Seq<BindingView>,
    fuel: nat,
)
    requires
        spec_step(TermView::App(pos, Box::new(f), Box::new(a)), defs) is Done,
        spec_norm(TermView::App(pos, Box::new(f), Box::new(a)), defs, fuel) matches Ok(Some(_)),
    ensures
        fuel > 0,
        spec_norm(f, defs, (fuel - 1) as nat) matches Ok(Some(g)) && (spec_norm(
            a,
            defs,
            (fuel - 1) as nat,
        ) matches Ok(Some(b)) && spec_norm(
            TermView::App(pos, Box::new(f), Box::new(a)),
            defs,
            fuel,
        ) == Ok::<Option<TermView>, IpldErrorView>(
            Some(TermView::App(pos, Box::new(g), Box::new(b))),
        )),
{
}

/// An application that admits no step admits none with the normal forms of
/// its function and of its argument.
proof fn lemma_app_stays(
    pos: Option<PositionView>,
    function: TermView,
    argument: TermView,
    defs: Seq<BindingView>,
    fuel: nat,
)
    requires
        spec_step(TermView::App(pos, Box::new(function), Box::new(argument)), defs) is Done,
        spec_norm(function, defs, fuel) matches Ok(Some(f)) && spec_normal(f, defs),
        spec_norm(argument, defs, fuel) matches Ok(Some(a)) && spec_normal(a, defs),
    ensures
        spec_step(
            TermView::App(
                pos,
                Box::new(spec_norm(function, defs, fuel)->Ok_0->0),
                Box::new(spec_norm(argument, defs, fuel)->Ok_0->0),
            ),
            defs,
        ) is Done,
{
    let f = spec_norm(function, defs, fuel)->Ok_0->0;
    let a = spec_norm(argument, defs, fuel)->Ok_0->0;
    assert(spec_step(function, defs) is Done);
    lemma_norm_keeps_head(function, defs, fuel);
    if spec_step(argument, defs) is Done {
        lemma_norm_keeps_head(argument, defs, fuel);
    }
    if function is App {
        let head = *function->App_1;
        let first = *function->App_2;
        let below = (fuel - 1) as nat;
        lemma_norm_of_app(function->App_0, head, first, defs, fuel);
        assert(spec_step(head, defs) is Done);
        lemma_norm_keeps_head(head, defs, below);
        if spec_step(first, defs) is Done {
            lemma_norm_keeps_head(first, defs, below);
        }
        assert(spec_normal(*f->App_2, defs));
    }
    assert(kept(function, f, argument, a, defs));
    lemma_app_step_stays(pos, function, argument, f, a, defs);
}

/// The normal form of a term in weak head normal form is in normal form.
pub proof fn lemma_norm_under_is_normal(t: TermView, defs: Seq<BindingView>, fuel: nat)
    requires
        spec_step(t, defs) is Done,
    ensures
        spec_norm_under(t, defs, fuel) matches Ok(Some(n)) ==> spec_normal(n, defs),
    decreases fuel, 1nat,
{
    if spec_norm_under(t, defs, fuel) matches Ok(Some(_)) {
        match t {
            TermView::Lam(_, _, body) => {
                lemma_norm_is_normal(*body, defs, fuel);
            },
            TermView::All(_, _, _, domain, image) => {
                lemma_norm_is_normal(*domain, defs, fuel);
                lemma_norm_is_normal(*image, defs, fuel);
            },
            TermView::Slf(_, _, body) => {
                lemma_norm_is_normal(*body, defs, fuel);
            },
            TermView::Dat(_, body) => {
                lemma_norm_is_normal(*body, defs, fuel);
            },
            TermView::Cse(_, body) => {
                lemma_norm_is_normal(*body, defs, fuel);
                lemma_norm_keeps_head(*body, defs, fuel);
            },
            TermView::App(pos, function, argument) => {
                lemma_norm_is_normal(*function, defs, fuel);
                lemma_norm_is_normal(*argument, defs, fuel);
                lemma_app_stays(pos, *function, *argument, defs, fuel);
            },
            _ => {},
        }
    }
}

/// What normalization gives is in normal form: no step is left in it, at
/// the head or under any constructor. What is left of an operation on
/// arguments is an operation without a result on them.
pub proof fn lemma_norm_is_normal(t: TermView, defs: Seq<BindingView>, fuel: nat)
    ensures
        spec_norm(t, defs, fuel) matches Ok(Some(n)) ==> spec_normal(n, defs),
    decreases fuel, 0nat,
{
    if fuel > 0 {
        lemma_whnf_is_done(t, defs, fuel);
        if spec_whnf(t, defs, fuel) matches Ok(Some(_)) {
            let w = spec_whnf(t, defs, fuel)->Ok_0->0;
            lemma_norm_under_is_normal(w, defs, (fuel - 1) as nat);
        }
    }
}

/// Whether two terms have the same head: the same constructor, and the
/// same index, multiplicity, literal, type, operation or block of an
/// anonymous term where the constructor holds one. Names and positions do
/// not count.
pub open spec fn same_shape(a: TermView, b: TermView) -> bool {
    match (a, b) {
        (TermView::Var(_, _, i), TermView::Var(_, _, j)) => i == j,
        (TermView::Lam(_, _, _), TermView::Lam(_, _, _)) => true,
        (TermView::App(_, _, _), TermView::App(_, _, _)) => true,
        (TermView::All(_, u, _, _, _), TermView::All(_, v, _, _, _)) => u == v,
        (TermView::Slf(_, _, _), TermView::Slf(_, _, _)) => true,
        (TermView::Dat(_, _), TermView::Dat(_, _)) => true,
        (TermView::Cse(_, _), TermView::Cse(_, _)) => true,
        (TermView::Ref(_, _, _, x), TermView::Ref(_, _, _, y)) => x == y,
        (TermView::Let(_, r, u, _, _, _, _), TermView::Let(_, s, v, _, _, _, _)) => r == s && u
            == v,
        (TermView::Typ(_), TermView::Typ(_)) => true,
        (TermView::Ann(_, _, _), TermView::Ann(_, _, _)) => true,
        (TermView::Lit(_, x), TermView::Lit(_, y)) => x == y,
        (TermView::LTy(_, x), TermView::LTy(_, y)) => x == y,
        (TermView::Opr(_, x), TermView::Opr(_, y)) => x == y,
        (TermView::Rec(_), TermView::Rec(_)) => true,
        _ => false,
    }
}

/// The terms directly under the head of a term, in order.
pub open spec fn parts(t: TermView) -> Seq<TermView> {
    match t {
        TermView::Lam(_, _, body) => seq![*body],
        TermView::App(_, function, argument) => seq![*function, *argument],
        TermView::All(_, _, _, domain, image) => seq![*domain, *image],
        TermView::Slf(_, _, body) => seq![*body],
        TermView::Dat(_, body) => seq![*body],
        TermView::Cse(_, body) => seq![*body],
        TermView::Let(_, _, _, _, typ, value, body) => seq![*typ, *value, *body],
        TermView::Ann(_, typ, value) => seq![*typ, *value],
        _ => Seq::empty(),
    }
}

/// Whether two terms are equal up to reduction, names and positions, as
/// far as `fuel` steps at every head and `fuel` constructors show: their
/// weak head normal forms have the same head, and the terms under the
/// heads are equal in the same way, the first ones first. Nothing where
/// the fuel runs out before a difference shows.
pub open spec fn spec_equal(a: TermView, b: TermView, defs: Seq<BindingView>, fuel: nat) -> Result<
    Option<bool>,
    IpldErrorView,
>
    decreases fuel, 0nat,
{
    if fuel == 0 {
        Ok(None)
    } else {
        match spec_whnf(a, defs, fuel) {
            Err(e) => Err(e),
            Ok(None) => Ok(None),
            Ok(Some(x)) => match spec_whnf(b, defs, fuel) {
                Err(e) => Err(e),
                Ok(None) => Ok(None),
                Ok(Some(y)) => {
                    if same_shape(x, y) {
                        spec_equal_all(parts(x), parts(y), defs, (fuel - 1) as nat)
                    } else {
                        Ok(Some(false))
                    }
                },
            },
        }
    }
}

/// Whether the terms of two rows are equal pair by pair; the first pair
/// that is not equal, or of which nothing shows, decides.
pub open spec fn spec_equal_all(
    xs: Seq<TermView>,
    ys: Seq<TermView>,
    defs: Seq<BindingView>,
    fuel: nat,
) -> Result<Option<bool>, IpldErrorView>
    decreases fuel, 1 + xs.len(),
{
    if xs.len() == 0 || ys.len() == 0 {
        Ok(Some(true))
    } else {
        match spec_equal(xs[0], ys[0], defs, fuel) {
            Ok(Some(true)) => spec_equal_all(xs.drop_first(), ys.drop_first(), defs, fuel),
            other => other,
        }
    }
}

/// A term is equal to itself wherever the fuel shows anything.
pub proof fn lemma_equal_reflexive(t: TermView, defs: Seq<BindingView>, fuel: nat)
    ensures
        spec_equal(t, t, defs, fuel) matches Ok(Some(b)) ==> b,
    decreases fuel, 0nat,
{
    if fuel > 0 {
        if spec_whnf(t, defs, fuel) matches Ok(Some(_)) {
            let x = spec_whnf(t, defs, fuel)->Ok_0->0;
            lemma_equal_all_reflexive(parts(x), defs, (fuel - 1) as nat);
        }
    }
}

/// A row of terms is equal to itself wherever the fuel shows anything.
pub proof fn lemma_equal_all_reflexive(xs: Seq<TermView>, defs: Seq<BindingView>, fuel: nat)
    ensures
        spec_equal_all(xs, xs, defs, fuel) matches Ok(Some(b)) ==> b,
    decreases fuel, 1 + xs.len(),
{
    if xs.len() > 0 {
        lemma_equal_reflexive(xs[0], defs, fuel);
        lemma_equal_all_reflexive(xs.drop_first(), defs, fuel);
    }
}

fn has_same_shape(a: &Term, b: &Term) -> (r: bool)
    ensures
        r == same_shape(a@, b@),
{
    match (a, b) {
        (Term::Var(_, _, i), Term::Var(_, _, j)) => *i == *j,
        (Term::Lam(_, _, _), Term::Lam(_, _, _)) => true,
        (Term::App(_, _, _), Term::App(_, _, _)) => true,
        (Term::All(_, u, _, _, _), Term::All(_, v, _, _, _)) => *u == *v,
        (Term::Slf(_, _, _), Term::Slf(_, _, _)) => true,
        (Term::Dat(_, _), Term::Dat(_, _)) => true,
        (Term::Cse(_, _), Term::Cse(_, _)) => true,
        (Term::Ref(_, _, _, x), Term::Ref(_, _, _, y)) => x.same(y),
        (Term::Let(_, r, u, _, _, _, _), Term::Let(_, s, v, _, _, _, _)) => *r == *s && *u == *v,
        (Term::Typ(_), Term::Typ(_)) => true,
        (Term::Ann(_, _, _), Term::Ann(_, _, _)) => true,
        (Term::Lit(_, x), Term::Lit(_, y)) => x.same(y),
        (Term::LTy(_, x), Term::LTy(_, y)) => *x == *y,
        (Term::Opr(_, x), Term::Opr(_, y)) => *x == *y,
        (Term::Rec(_), Term::Rec(_)) => true,
        _ => false,
    }
}

/// The views of terms, in order.
pub open spec fn term_views(items: Seq<&Term>) -> Seq<TermView> {
    Seq::new(items.len(), |i: int| items[i]@)
}

fn get_parts(t: &Term) -> (r: Vec<&Term>)
    ensures
        term_views(r@) == parts(t@),
{
    let mut r: Vec<&Term> = Vec::new();
    match t {
        Term::Lam(_, _, body) => {
            r.push(&**body);
        },
        Term::App(_, function, argument) => {
            r.push(&**function);
            r.push(&**argument);
        },
        Term::All(_, _, _, domain, image) => {
            r.push(&**domain);
            r.push(&**image);
        },
        Term::Slf(_, _, body) => {
            r.push(&**body);
        },
        Term::Dat(_, body) => {
            r.push(&**body);
        },
        Term::Cse(_, body) => {
            r.push(&**body);
        },
        Term::Let(_, _, _, _, typ, value, body) => {
            r.push(&**typ);
            r.push(&**value);
            r.push(&**body);
        },
        Term::Ann(_, typ, value) => {
            r.push(&**typ);
            r.push(&**value);
        },
        _ => {},
    }
    assert(term_views(r@) =~= parts(t@));
    r
}

/// What the comparison of two terms showed.
pub open spec fn compared(
    r: Result<Option<bool>,
    IpldError>,
) -> Result<Option<bool>, IpldErrorView> {
    match r {
        Ok(x) => Ok(x),
        Err(e) => Err(e@),
    }
}

/// Whether the terms of two rows are equal pair by pair.
fn equal_all(xs: &Vec<&Term>, ys: &Vec<&Term>, defs: &Defs, fuel: u64) -> (r: Result<
    Option<bool>,
    IpldError,
>)
    ensures
        compared(r) == spec_equal_all(term_views(xs@), term_views(ys@), defs@, fuel as nat),
    decreases fuel, 1nat,
{
    let ghost px = term_views(xs@);
    let ghost py = term_views(ys@);
    let mut i: usize = 0;
    proof {
        assert(px.skip(0) =~= px);
        assert(py.skip(0) =~= py);
    }
    while i < xs.len() && i < ys.len()
        invariant
            i <= xs.len(),
            i <= ys.len(),
            px == term_views(xs@),
            py == term_views(ys@),
            spec_equal_all(px, py, defs@, fuel as nat) == spec_equal_all(
                px.skip(i as int),
                py.skip(i as int),
                defs@,
                fuel as nat,
            ),
        decreases xs.len() - i,
    {
        proof {
            assert(px.skip(i as int)[0] == xs[i as int]@);
            assert(py.skip(i as int)[0] == ys[i as int]@);
            assert(px.skip(i as int).drop_first() =~= px.skip(i + 1));
            assert(py.skip(i as int).drop_first() =~= py.skip(i + 1));
        }
        match equal(xs[i], ys[i], defs, fuel)? {
            Some(true) => {},
            other => {
                return Ok(other);
            },
        }
        i += 1;
    }
    Ok(Some(true))
}

/// Whether two terms are equal up to reduction, names and positions, as
/// far as `fuel` steps at every head and `fuel` constructors show.
pub fn equal(a: &Term, b: &Term, defs: &Defs, fuel: u64) -> (r: Result<Option<bool>, IpldError>)
    ensures
        compared(r) == spec_equal(a@, b@, defs@, fuel as nat),
    decreases fuel, 0nat,
{
    if fuel == 0 {
        return Ok(None);
    }
    let x = match whnf(a.clone(), defs, fuel)? {
        Some(x) => x,
        None => {
            return Ok(None);
        },
    };
    let y = match whnf(b.clone(), defs, fuel)? {
        Some(y) => y,
        None => {
            return Ok(None);
        },
    };
    if !has_same_shape(&x, &y) {
        return Ok(Some(false));
    }
    let xs = get_parts(&x);
    let ys = get_parts(&y);
    equal_all(&xs, &ys, defs, fuel - 1)
}

} // verus!
