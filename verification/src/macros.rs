//! Macro expansion: from the symbol that names a macro to the symbols
//! that stand in its place.

use crate::errors::{ExpansionError, ExpansionErrorView, Located, MacroNotFoundError, ParseIntError};
use crate::lexer::{Token, TokenView};
use crate::macro_table::{Macro, MacroTable, MacroView};
use crate::symbol::{
    deep, lemma_deep_add, lemma_deep_drop_last, lemma_deep_push, Comment, Delta, Literal,
    Operator, Symbol, SymbolView, TokenKind,
};
use vstd::prelude::*;

verus! {

/// How deep macros may expand into macros. A symbol that is reached
/// through this many substitutions is dropped.
pub const MAX_DEPTH: u32 = 5;

/// The number of arguments that a call can pass.
pub const MAX_ARGS: usize = 10;

/// The arguments of a call while they are collected.
pub struct Collector {
    /// How many parentheses are open.
    pub paren_depth: i128,
    /// The place of the argument that is being read, ten once the call
    /// has passed more arguments than a macro can take.
    pub arg_idx: usize,
    /// The symbols of each argument.
    pub args: Vec<Vec<Symbol>>,
    /// What stands in inner parentheses, those parentheses included:
    /// it stands in its argument and is kept here as well, to be read
    /// again by the call that the parentheses belong to.
    pub requeue: Vec<Symbol>,
    /// Whether the parenthesis that closes the call has been read.
    pub done: bool,
}

/// The collector as contracts see it.
pub struct CollectorView {
    pub paren_depth: int,
    pub arg_idx: nat,
    pub args: Seq<Seq<SymbolView>>,
    pub requeue: Seq<SymbolView>,
    pub done: bool,
}

/// The views of the buckets of arguments.
pub open spec fn deep_args(args: Seq<Vec<Symbol>>) -> Seq<Seq<SymbolView>> {
    Seq::new(args.len(), |i: int| deep(args[i]@))
}

impl View for Collector {
    type V = CollectorView;

    open spec fn view(&self) -> CollectorView {
        CollectorView {
            paren_depth: self.paren_depth as int,
            arg_idx: self.arg_idx as nat,
            args: deep_args(self.args@),
            requeue: deep(self.requeue@),
            done: self.done,
        }
    }
}

impl CollectorView {
    /// The collector before the first symbol of a call: nothing open,
    /// ten empty arguments.
    pub open spec fn start() -> CollectorView {
        CollectorView {
            paren_depth: 0,
            arg_idx: 0,
            args: Seq::new(MAX_ARGS as nat, |i: int| Seq::<SymbolView>::empty()),
            requeue: Seq::empty(),
            done: false,
        }
    }

    /// The arguments with `symbol` added to the one that is being read;
    /// unchanged once more than ten arguments have been passed.
    pub open spec fn stored(self, symbol: SymbolView) -> Seq<Seq<SymbolView>> {
        if self.arg_idx < self.args.len() {
            self.args.update(self.arg_idx as int, self.args[self.arg_idx as int].push(symbol))
        } else {
            self.args
        }
    }

    /// The collector with `symbol` taken for a symbol inside inner
    /// parentheses: it is added to the argument that is being read, and
    /// queued to be read again as part of the call that the parentheses
    /// belong to.
    pub open spec fn nested(self, symbol: SymbolView) -> CollectorView {
        CollectorView { args: self.stored(symbol), requeue: self.requeue.push(symbol), ..self }
    }

    /// The collector after one more symbol.
    ///
    /// `(` opens a parenthesis and `)` closes one; the `)` that closes
    /// the last open parenthesis ends the call. With one parenthesis
    /// open, `,` moves on to the next argument and any other symbol is
    /// added to the argument that is being read. What stands in inner
    /// parentheses, those parentheses included, is added to the argument
    /// and queued.
    pub open spec fn feed(self, symbol: SymbolView) -> CollectorView {
        match symbol.token_kind {
            TokenKind::LParen => {
                let opened = CollectorView { paren_depth: self.paren_depth + 1, ..self };
                if opened.paren_depth > 1 {
                    opened.nested(symbol)
                } else {
                    opened
                }
            },
            TokenKind::RParen => if self.paren_depth == 1 {
                CollectorView { paren_depth: 0, done: true, ..self }
            } else if self.paren_depth > 1 {
                CollectorView { paren_depth: self.paren_depth - 1, ..self.nested(symbol) }
            } else {
                CollectorView { paren_depth: self.paren_depth - 1, ..self }
            },
            TokenKind::Comma => if self.paren_depth == 1 {
                CollectorView {
                    arg_idx: if self.arg_idx < MAX_ARGS {
                        self.arg_idx + 1
                    } else {
                        self.arg_idx
                    },
                    ..self
                }
            } else if self.paren_depth > 1 {
                self.nested(symbol)
            } else {
                self
            },
            _ => if self.paren_depth == 1 {
                CollectorView { args: self.stored(symbol), ..self }
            } else if self.paren_depth > 1 {
                self.nested(symbol)
            } else {
                self
            },
        }
    }
}

impl Collector {
    /// Ten arguments, and an index within them or just past them.
    pub open spec fn shaped(&self) -> bool {
        &&& self.args@.len() == MAX_ARGS
        &&& self.arg_idx <= MAX_ARGS
    }

    /// The collector is shaped, and its depth can still move by one
    /// either way.
    pub open spec fn wf(&self) -> bool {
        &&& self.shaped()
        &&& i128::MIN < self.paren_depth < i128::MAX
    }

    /// The collector before the first symbol of a call.
    pub fn new() -> (collector: Collector)
        ensures
            collector@ == CollectorView::start(),
            collector.wf(),
    {
        let mut args: Vec<Vec<Symbol>> = Vec::new();
        let mut i: usize = 0;
        while i < MAX_ARGS
            invariant
                i <= MAX_ARGS,
                args@.len() == i,
                forall|j: int| 0 <= j < i ==> (#[trigger] args@[j])@.len() == 0,
            decreases MAX_ARGS - i,
        {
            args.push(Vec::new());
            i += 1;
        }
        let collector = Collector {
            paren_depth: 0,
            arg_idx: 0,
            args,
            requeue: Vec::new(),
            done: false,
        };
        proof {
            assert(collector@.args =~= CollectorView::start().args) by {
                assert forall|j: int| 0 <= j < MAX_ARGS implies #[trigger] collector@.args[j]
                    == Seq::<SymbolView>::empty() by {
                    assert(collector.args@[j]@.len() == 0);
                    assert(deep(collector.args@[j]@) =~= Seq::<SymbolView>::empty());
                }
            }
            assert(collector@.requeue =~= Seq::<SymbolView>::empty());
        }
        collector
    }

    /// Adds `symbol` to the argument that is being read, if a macro can
    /// take that argument.
    fn store(&mut self, symbol: Symbol)
        requires
            old(self).shaped(),
        ensures
            final(self)@ == (CollectorView { args: old(self)@.stored(symbol@), ..old(self)@ }),
            final(self).shaped(),
            final(self).paren_depth == old(self).paren_depth,
    {
        if self.arg_idx < self.args.len() {
            let ghost before = self.args@;
            let ghost idx = self.arg_idx as int;
            self.args[self.arg_idx].push(symbol);
            proof {
                lemma_deep_push(before[idx]@, symbol);
                assert(deep_args(self.args@) =~= deep_args(before).update(
                    idx,
                    deep_args(before)[idx].push(symbol@),
                ));
            }
        }
    }

    /// Queues `symbol` to be read again.
    fn queue(&mut self, symbol: Symbol)
        requires
            old(self).shaped(),
        ensures
            final(self)@ == (CollectorView {
                requeue: old(self)@.requeue.push(symbol@),
                ..old(self)@
            }),
            final(self).shaped(),
            final(self).paren_depth == old(self).paren_depth,
    {
        let ghost before = self.requeue@;
        self.requeue.push(symbol);
        proof {
            lemma_deep_push(before, symbol);
        }
    }

    fn nested(&mut self, symbol: Symbol)
        requires
            old(self).shaped(),
        ensures
            final(self)@ == old(self)@.nested(symbol@),
            final(self).shaped(),
            final(self).paren_depth == old(self).paren_depth,
    {
        self.store(symbol.clone());
        self.queue(symbol);
    }

    /// Takes one more symbol of the call into account.
    pub fn feed(&mut self, symbol: Symbol)
        requires
            old(self).wf(),
        ensures
            final(self)@ == old(self)@.feed(symbol@),
            final(self).shaped(),
            old(self).paren_depth - 1 <= final(self).paren_depth <= old(self).paren_depth + 1,
    {
        match symbol.token_kind {
            TokenKind::LParen => {
                self.paren_depth = self.paren_depth + 1;
                if self.paren_depth > 1 {
                    self.nested(symbol);
                }
            },
            TokenKind::RParen => {
                if self.paren_depth == 1 {
                    self.paren_depth = 0;
                    self.done = true;
                } else {
                    if self.paren_depth > 1 {
                        self.nested(symbol);
                    }
                    self.paren_depth = self.paren_depth - 1;
                }
            },
            TokenKind::Comma => {
                if self.paren_depth == 1 {
                    if self.arg_idx < MAX_ARGS {
                        self.arg_idx = self.arg_idx + 1;
                    }
                } else if self.paren_depth > 1 {
                    self.nested(symbol);
                }
            },
            _ => {
                if self.paren_depth == 1 {
                    self.store(symbol);
                } else if self.paren_depth > 1 {
                    self.nested(symbol);
                }
            },
        }
    }
}

/// What collecting the arguments of a call leaves behind.
pub struct Collected {
    /// The ten arguments.
    pub args: Seq<Seq<SymbolView>>,
    /// The symbols that wait to be read again.
    pub args_stack: Seq<SymbolView>,
    /// How far the tokens have been read.
    pub pos: nat,
}

/// How many symbols a collector can still read: those that wait to be
/// read again, and the tokens from `pos` up to `limit`.
pub open spec fn readable(
    tokens: Seq<TokenView>,
    limit: nat,
    args_stack: Seq<SymbolView>,
    pos: nat,
) -> nat {
    let end = if limit < tokens.len() {
        limit
    } else {
        tokens.len()
    };
    args_stack.len() + if pos < end {
        (end - pos) as nat
    } else {
        0
    }
}

/// Feeds a collector until it is done or nothing is left to read. A
/// symbol comes from the top of `args_stack` while there is one, and else
/// from the tokens before `limit`.
pub open spec fn collect_loop(
    tokens: Seq<TokenView>,
    limit: nat,
    collector: CollectorView,
    args_stack: Seq<SymbolView>,
    pos: nat,
) -> (CollectorView, Seq<SymbolView>, nat)
    decreases readable(tokens, limit, args_stack, pos),
{
    if collector.done {
        (collector, args_stack, pos)
    } else if args_stack.len() > 0 {
        collect_loop(tokens, limit, collector.feed(args_stack.last()), args_stack.drop_last(), pos)
    } else if pos < limit && pos < tokens.len() {
        collect_loop(tokens, limit, collector.feed(tokens[pos as int].symbol), args_stack, pos + 1)
    } else {
        (collector, args_stack, pos)
    }
}

/// The arguments of the call that starts at the next symbol, and what
/// reading them leaves of `args_stack` and of the tokens: the symbols
/// that were queued go back on `args_stack`, the first of them on top.
pub open spec fn collected(
    tokens: Seq<TokenView>,
    limit: nat,
    args_stack: Seq<SymbolView>,
    pos: nat,
) -> Collected {
    let end = collect_loop(tokens, limit, CollectorView::start(), args_stack, pos);
    Collected { args: end.0.args, args_stack: end.1 + end.0.requeue.reverse(), pos: end.2 }
}

/// Collects the arguments of a macro call. The next symbol is taken to
/// be the parenthesis that opens the call; symbols are read up to the
/// parenthesis that closes it, from `args_stack` first and then from the
/// tokens at `pos`, never from `limit` on.
pub fn collect_arguments(
    tokens: &Vec<Token>,
    pos: &mut usize,
    limit: usize,
    args_stack: &mut Vec<Symbol>,
) -> (args: Vec<Vec<Symbol>>)
    ensures
        deep_args(args@) == collected(
            deep(tokens@),
            limit as nat,
            deep(old(args_stack)@),
            *old(pos) as nat,
        ).args,
        deep(final(args_stack)@) == collected(
            deep(tokens@),
            limit as nat,
            deep(old(args_stack)@),
            *old(pos) as nat,
        ).args_stack,
        *final(pos) == collected(
            deep(tokens@),
            limit as nat,
            deep(old(args_stack)@),
            *old(pos) as nat,
        ).pos,
        *final(pos) >= *old(pos),
        *final(pos) == *old(pos) || *final(pos) <= tokens@.len(),
        *final(pos) == *old(pos) || *final(pos) <= limit,
        args@.len() == MAX_ARGS,
{
    let mut collector = Collector::new();
    let stack_len = args_stack.len();
    let token_count = tokens.len();
    let ghost goal = collect_loop(
        deep(tokens@),
        limit as nat,
        CollectorView::start(),
        deep(args_stack@),
        *pos as nat,
    );
    let ghost budget = readable(deep(tokens@), limit as nat, deep(args_stack@), *pos as nat);
    loop
        invariant
            collector.shaped(),
            *pos >= *old(pos),
            *pos == *old(pos) || *pos <= tokens@.len(),
            *pos == *old(pos) || *pos <= limit,
            collect_loop(deep(tokens@), limit as nat, collector@, deep(args_stack@), *pos as nat)
                == goal,
            budget <= 2 * usize::MAX,
            -(budget - readable(deep(tokens@), limit as nat, deep(args_stack@), *pos as nat))
                <= collector.paren_depth <= budget - readable(
                deep(tokens@),
                limit as nat,
                deep(args_stack@),
                *pos as nat,
            ),
        ensures
            collector.shaped(),
            *pos >= *old(pos),
            *pos == *old(pos) || *pos <= tokens@.len(),
            *pos == *old(pos) || *pos <= limit,
            (collector@, deep(args_stack@), *pos as nat) == goal,
        decreases readable(deep(tokens@), limit as nat, deep(args_stack@), *pos as nat),
    {
        if collector.done {
            break ;
        }
        let ghost stack_before = args_stack@;
        match args_stack.pop() {
            Some(symbol) => {
                proof {
                    lemma_deep_drop_last(stack_before);
                }
                collector.feed(symbol);
            },
            None => {
                if *pos < limit && *pos < tokens.len() {
                    let symbol = tokens[*pos].symbol.clone();
                    *pos = *pos + 1;
                    collector.feed(symbol);
                } else {
                    break ;
                }
            },
        }
    }
    let ghost rest = args_stack@;
    let ghost queued = collector.requeue@;
    let args = collector.args;
    let mut requeue = collector.requeue;
    loop
        invariant
            deep(args_stack@) + deep(requeue@).reverse() == deep(rest) + deep(queued).reverse(),
        ensures
            deep(args_stack@) == deep(rest) + deep(queued).reverse(),
        decreases requeue@.len(),
    {
        let ghost stack_before = args_stack@;
        let ghost queue_before = requeue@;
        match requeue.pop() {
            Some(symbol) => {
                args_stack.push(symbol);
                proof {
                    lemma_deep_push(stack_before, symbol);
                    lemma_deep_drop_last(queue_before);
                    assert(deep(queue_before).reverse() =~= seq![symbol@] + deep(
                        queue_before,
                    ).drop_last().reverse());
                    assert(deep(stack_before).push(symbol@) + deep(
                        queue_before,
                    ).drop_last().reverse() =~= deep(stack_before) + deep(queue_before).reverse());
                }
            },
            None => {
                proof {
                    assert(deep(queue_before).reverse() =~= Seq::<SymbolView>::empty());
                    assert(deep(args_stack@) + Seq::<SymbolView>::empty() =~= deep(args_stack@));
                }
                break ;
            },
        }
    }
    args
}

/// A symbol that waits to be expanded.
#[derive(Debug)]
pub struct WorkItem {
    pub symbol: Symbol,
    /// The delta that the symbol gets when it is emitted.
    pub delta: Delta,
    /// Through how many substitutions the symbol was reached.
    pub depth: u32,
}

/// A work item as contracts see it.
pub struct WorkItemView {
    pub symbol: SymbolView,
    pub delta: Delta,
    pub depth: u32,
}

impl View for WorkItem {
    type V = WorkItemView;

    open spec fn view(&self) -> WorkItemView {
        WorkItemView { symbol: self.symbol@, delta: self.delta, depth: self.depth }
    }
}

impl DeepView for WorkItem {
    type V = WorkItemView;

    open spec fn deep_view(&self) -> WorkItemView {
        self@
    }
}

/// The work items for symbols that take the place of another symbol at
/// `depth`: the first stands where that symbol stood and gets its delta,
/// `first`; the others keep their own.
pub open spec fn items_of(symbols: Seq<SymbolView>, first: Delta, depth: u32) -> Seq<
    WorkItemView,
> {
    Seq::new(
        symbols.len(),
        |i: int|
            WorkItemView {
                symbol: symbols[i],
                delta: if i == 0 {
                    first
                } else {
                    symbols[i].delta
                },
                depth,
            },
    )
}

/// Pushes the work items of `symbols`, the first with the delta `first`.
fn push_items(stack: &mut Vec<WorkItem>, symbols: &Vec<Symbol>, first: Delta, depth: u32)
    ensures
        deep(final(stack)@) == deep(old(stack)@) + items_of(deep(symbols@), first, depth),
{
    let mut i: usize = 0;
    while i < symbols.len()
        invariant
            i <= symbols.len(),
            deep(stack@) == deep(old(stack)@) + items_of(deep(symbols@), first, depth).take(
                i as int,
            ),
        decreases symbols.len() - i,
    {
        let ghost before = stack@;
        let item = WorkItem {
            symbol: symbols[i].clone(),
            delta: if i == 0 {
                first
            } else {
                symbols[i].delta
            },
            depth,
        };
        stack.push(item);
        proof {
            lemma_deep_push(before, item);
            assert(items_of(deep(symbols@), first, depth).take(i + 1) =~= items_of(
                deep(symbols@),
                first,
                depth,
            ).take(i as int).push(item@));
            assert(deep(before).push(item@) =~= deep(old(stack)@) + items_of(
                deep(symbols@),
                first,
                depth,
            ).take(i + 1));
        }
        i += 1;
    }
    proof {
        assert(items_of(deep(symbols@), first, depth).take(symbols@.len() as int) =~= items_of(
            deep(symbols@),
            first,
            depth,
        ));
        assert(deep(old(stack)@) + items_of(deep(symbols@), first, depth).take(0) =~= deep(
            old(stack)@,
        ));
    }
}

/// Expands an object-like macro: its body is scheduled in place of
/// `symbol`, one level deeper than `d`.
pub fn expand_non_macro_define(macro_: &Macro, stack: &mut Vec<WorkItem>, symbol: &Symbol, d: u32)
    requires
        d < u32::MAX,
    ensures
        deep(final(stack)@) == deep(old(stack)@) + items_of(
            macro_@.body,
            symbol@.delta,
            (d + 1) as u32,
        ),
{
    push_items(stack, &macro_.body, symbol.delta, d + 1);
}

/// The place, among the arguments of a call, of the argument that a
/// parameter stands for; `None` where `symbol` names no parameter from
/// `%0` to `%9` or the macro does not use the one it names.
pub open spec fn argument_place(params: Seq<i8>, symbol: SymbolView) -> Option<int> {
    match symbol.int_value {
        None => None,
        Some(number) => if number < params.len() && 0 <= params[number as int] < MAX_ARGS {
            Some(params[number as int] as int)
        } else {
            None
        },
    }
}

/// The body of a function-like macro, read up to some symbol.
pub struct Substitution {
    /// The work items so far.
    pub items: Seq<WorkItemView>,
    /// How many `%` stand directly before the next symbol.
    pub percents: nat,
    /// The symbol on which the reading failed, if it did.
    pub error: Option<Located>,
}

/// Reads one more symbol of the body: the symbol at place `i`.
///
/// Of a run of `%` every other one is kept, the first included. An
/// integer right after a single `%` is a parameter: the symbols of its
/// argument are scheduled in place of that `%`, the first of them with
/// the delta of the `%`. Any other symbol is scheduled as it is, the
/// first of the body with the delta of `head`.
pub open spec fn substitute_step(
    args: Seq<Seq<SymbolView>>,
    params: Seq<i8>,
    head: SymbolView,
    depth: u32,
    so_far: Substitution,
    i: int,
    child: SymbolView,
) -> Substitution {
    let plain = WorkItemView { symbol: child, delta: child.delta, depth };
    match child.token_kind {
        TokenKind::Operator(Operator::Percent) => Substitution {
            items: if so_far.percents % 2 == 0 {
                so_far.items.push(plain)
            } else {
                so_far.items
            },
            percents: so_far.percents + 1,
            error: None,
        },
        TokenKind::Literal(Literal::IntegerLiteral) => if so_far.percents == 1 {
            let kept = if so_far.items.len() > 0 {
                so_far.items.drop_last()
            } else {
                so_far.items
            };
            let first = if so_far.items.len() > 0 {
                so_far.items.last().delta
            } else {
                head.delta
            };
            match argument_place(params, child) {
                None => Substitution {
                    items: kept,
                    percents: 0,
                    error: Some(Located { text: child.text, range: child.range }),
                },
                Some(place) => Substitution {
                    items: if place < args.len() {
                        kept + items_of(args[place], first, depth)
                    } else {
                        kept
                    },
                    percents: 0,
                    error: None,
                },
            }
        } else {
            Substitution { items: so_far.items.push(plain), percents: 0, error: None }
        },
        _ => Substitution {
            items: so_far.items.push(
                WorkItemView {
                    symbol: child,
                    delta: if i == 0 {
                        head.delta
                    } else {
                        child.delta
                    },
                    depth,
                },
            ),
            percents: 0,
            error: None,
        },
    }
}

/// Reads the body from place `i` on, up to its end or to the first
/// symbol on which the reading fails.
pub open spec fn substitute_from(
    args: Seq<Seq<SymbolView>>,
    params: Seq<i8>,
    body: Seq<SymbolView>,
    head: SymbolView,
    depth: u32,
    so_far: Substitution,
    i: int,
) -> Substitution
    decreases body.len() - i,
{
    if so_far.error is Some || i < 0 || i >= body.len() {
        so_far
    } else {
        substitute_from(
            args,
            params,
            body,
            head,
            depth,
            substitute_step(args, params, head, depth, so_far, i, body[i]),
            i + 1,
        )
    }
}

/// The work items that the body of a function-like macro gives for a
/// call with the arguments `args`, or the symbol on which it fails.
pub open spec fn substituted(
    args: Seq<Seq<SymbolView>>,
    params: Seq<i8>,
    body: Seq<SymbolView>,
    head: SymbolView,
    depth: u32,
) -> Substitution {
    substitute_from(
        args,
        params,
        body,
        head,
        depth,
        Substitution { items: Seq::empty(), percents: 0, error: None },
        0,
    )
}

/// Expands a function-like macro: its body, with each parameter replaced
/// by the symbols of its argument, is scheduled in place of `symbol`, one
/// level deeper than `d`. On a parameter that is no parameter of the
/// macro nothing is scheduled and the symbol of the parameter is
/// reported.
pub fn expand_macro(
    args: &Vec<Vec<Symbol>>,
    macro_: &Macro,
    stack: &mut Vec<WorkItem>,
    symbol: &Symbol,
    d: u32,
) -> (result: Result<(), ParseIntError>)
    requires
        d < u32::MAX,
        macro_.args is Some,
    ensures
        result is Ok <==> substituted(
            deep_args(args@),
            macro_@.args->Some_0,
            macro_@.body,
            symbol@,
            (d + 1) as u32,
        ).error is None,
        result is Ok ==> deep(final(stack)@) == deep(old(stack)@) + substituted(
            deep_args(args@),
            macro_@.args->Some_0,
            macro_@.body,
            symbol@,
            (d + 1) as u32,
        ).items,
        result is Err ==> Some(result->Err_0@) == substituted(
            deep_args(args@),
            macro_@.args->Some_0,
            macro_@.body,
            symbol@,
            (d + 1) as u32,
        ).error,
        result is Err ==> final(stack)@ == old(stack)@,
{
    let params = match &macro_.args {
        Some(params) => params,
        None => { return Ok(()); },
    };
    let depth = d + 1;
    let mut items: Vec<WorkItem> = Vec::new();
    let mut consecutive_percent: usize = 0;
    let mut i: usize = 0;
    let ghost goal = substituted(deep_args(args@), params@, macro_@.body, symbol@, depth);
    proof {
        assert(deep(items@) =~= Seq::<WorkItemView>::empty());
    }
    while i < macro_.body.len()
        invariant
            i <= macro_.body.len(),
            consecutive_percent <= i,
            depth == d + 1,
            macro_.args == Some(*params),
            goal == substituted(deep_args(args@), params@, macro_@.body, symbol@, depth),
            substitute_from(
                deep_args(args@),
                params@,
                macro_@.body,
                symbol@,
                depth,
                Substitution {
                    items: deep(items@),
                    percents: consecutive_percent as nat,
                    error: None,
                },
                i as int,
            ) == goal,
            stack@ == old(stack)@,
        decreases macro_.body.len() - i,
    {
        let child = &macro_.body[i];
        let ghost so_far = Substitution {
            items: deep(items@),
            percents: consecutive_percent as nat,
            error: None,
        };
        let ghost next = substitute_step(
            deep_args(args@),
            params@,
            symbol@,
            depth,
            so_far,
            i as int,
            child@,
        );
        let ghost before = items@;
        proof {
            assert(deep(macro_.body@)[i as int] == child@);
        }
        match child.token_kind {
            TokenKind::Operator(Operator::Percent) => {
                if consecutive_percent % 2 == 0 {
                    let item = WorkItem { symbol: child.clone(), delta: child.delta, depth };
                    items.push(item);
                    proof {
                        lemma_deep_push(before, item);
                    }
                }
                consecutive_percent += 1;
            },
            TokenKind::Literal(Literal::IntegerLiteral) => {
                if consecutive_percent == 1 {
                    let mut first = symbol.delta;
                    match items.pop() {
                        Some(percent) => {
                            first = percent.delta;
                            proof {
                                lemma_deep_drop_last(before);
                            }
                        },
                        None => {},
                    }
                    let place = match child.int_value {
                        None => None,
                        Some(number) => {
                            if (number as usize) < MAX_ARGS && 0 <= params[number as usize]
                                && (params[number as usize] as usize) < MAX_ARGS {
                                Some(params[number as usize] as usize)
                            } else {
                                None
                            }
                        },
                    };
                    assert(match place {
                        Some(p) => argument_place(params@, child@) == Some(p as int),
                        None => argument_place(params@, child@) is None,
                    });
                    match place {
                        None => {
                            proof {
                                assert(next.error is Some);
                                assert(substitute_from(
                                    deep_args(args@),
                                    params@,
                                    macro_@.body,
                                    symbol@,
                                    depth,
                                    next,
                                    i + 1,
                                ) == next);
                                assert(goal == next);
                                assert(macro_@.args->Some_0 == params@);
                            }
                            let error = ParseIntError::new(child.text.clone(), child.range);
                            assert(next.error == Some(error@));
                            assert(stack@ == old(stack)@);
                            return Err(error);
                        },
                        Some(place) => {
                            if place < args.len() {
                                push_items(&mut items, &args[place], first, depth);
                            }
                        },
                    }
                } else {
                    let item = WorkItem { symbol: child.clone(), delta: child.delta, depth };
                    items.push(item);
                    proof {
                        lemma_deep_push(before, item);
                    }
                }
                consecutive_percent = 0;
            },
            _ => {
                let item = WorkItem {
                    symbol: child.clone(),
                    delta: if i == 0 {
                        symbol.delta
                    } else {
                        child.delta
                    },
                    depth,
                };
                items.push(item);
                proof {
                    lemma_deep_push(before, item);
                }
                consecutive_percent = 0;
            },
        }
        proof {
            assert(deep(items@) == next.items);
            assert(next.percents == consecutive_percent);
            assert(next.error is None);
        }
        i += 1;
    }
    let ghost before = stack@;
    let ghost scheduled = items@;
    stack.append(&mut items);
    proof {
        lemma_deep_add(before, scheduled);
    }
    Ok(())
}

/// What an expansion works in: the tokens that a call may take its
/// arguments from, the macros, and whether a name without a macro is
/// let through.
pub struct Setting {
    pub tokens: Seq<TokenView>,
    /// The place in the tokens that no call reads from or past.
    pub limit: nat,
    pub macros: Map<Seq<char>, MacroView>,
    pub allow_undefined_macros: bool,
}

/// An expansion under way.
pub struct ExpansionView {
    /// The symbols that wait to be expanded, the next one last.
    pub work: Seq<WorkItemView>,
    /// The symbols that wait to be read again as arguments.
    pub args_stack: Seq<SymbolView>,
    /// How far the tokens have been read.
    pub pos: nat,
    /// The symbols that the expansion has given, in the order in which
    /// they were given.
    pub emitted: Seq<SymbolView>,
    /// For each symbol given, through how many substitutions it was
    /// reached.
    pub depths: Seq<u32>,
    /// The macros that the text itself names.
    pub expanded: Seq<SymbolView>,
    /// Why the expansion stopped, if it did.
    pub error: Option<ExpansionErrorView>,
}

/// The level of a work item: its depth, or the depth limit where it is
/// at or past it.
pub open spec fn level(item: WorkItemView) -> nat {
    if item.depth < MAX_DEPTH {
        item.depth as nat
    } else {
        MAX_DEPTH as nat
    }
}

/// How many of the work items are at a level.
pub open spec fn level_count(work: Seq<WorkItemView>, at: nat) -> nat
    decreases work.len(),
{
    if work.len() == 0 {
        0
    } else {
        level_count(work.drop_last(), at) + if level(work.last()) == at {
            1nat
        } else {
            0nat
        }
    }
}

impl ExpansionView {
    /// The expansion of `head`, before its first step.
    pub open spec fn start(head: SymbolView, pos: nat) -> ExpansionView {
        ExpansionView {
            work: seq![WorkItemView { symbol: head, delta: head.delta, depth: 0 }],
            args_stack: Seq::empty(),
            pos,
            emitted: Seq::empty(),
            depths: Seq::empty(),
            expanded: Seq::empty(),
            error: None,
        }
    }

    pub open spec fn emit(self, symbol: SymbolView, depth: u32) -> ExpansionView {
        ExpansionView {
            emitted: self.emitted.push(symbol),
            depths: self.depths.push(depth),
            ..self
        }
    }

    pub open spec fn schedule(self, items: Seq<WorkItemView>) -> ExpansionView {
        ExpansionView { work: self.work + items, ..self }
    }

    pub open spec fn fail(self, error: ExpansionErrorView) -> ExpansionView {
        ExpansionView { error: Some(error), ..self }
    }

    /// Expands the macro that `item` names.
    pub open spec fn substitute(
        self,
        setting: Setting,
        item: WorkItemView,
        definition: MacroView,
    ) -> ExpansionView {
        let noted = if item.depth == 0 {
            ExpansionView { expanded: self.expanded.push(item.symbol), ..self }
        } else {
            self
        };
        match definition.args {
            None => noted.schedule(
                items_of(definition.body, item.symbol.delta, (item.depth + 1) as u32),
            ),
            Some(params) => {
                let call = collected(setting.tokens, setting.limit, noted.args_stack, noted.pos);
                let read = ExpansionView { args_stack: call.args_stack, pos: call.pos, ..noted };
                let body = substituted(
                    call.args,
                    params,
                    definition.body,
                    item.symbol,
                    (item.depth + 1) as u32,
                );
                match body.error {
                    None => read.schedule(body.items),
                    Some(symbol) => read.fail(ExpansionErrorView::Parse(symbol)),
                }
            },
        }
    }

    /// One step: the last work item is taken off and dealt with.
    ///
    /// At the depth limit it is dropped. A name with a macro gives way to
    /// the body of the macro; a name without one is emitted where that
    /// is allowed and stops the expansion where it is not. A string or
    /// character literal is emitted on one line. Newlines, line
    /// continuations and line comments are dropped. Every other symbol
    /// is emitted with the delta of its item.
    pub open spec fn step(self, setting: Setting) -> ExpansionView
        recommends
            self.work.len() > 0,
    {
        let item = self.work.last();
        let popped = ExpansionView { work: self.work.drop_last(), ..self };
        if item.depth >= MAX_DEPTH {
            popped
        } else {
            match item.symbol.token_kind {
                TokenKind::Identifier => if setting.macros.contains_key(item.symbol.text) {
                    popped.substitute(setting, item, setting.macros[item.symbol.text])
                } else if setting.allow_undefined_macros {
                    popped.emit(item.symbol.with_delta(item.delta), item.depth)
                } else {
                    popped.fail(
                        ExpansionErrorView::MacroNotFound(
                            Located { text: item.symbol.text, range: item.symbol.range },
                        ),
                    )
                },
                TokenKind::Literal(Literal::StringLiteral) | TokenKind::Literal(
                    Literal::CharLiteral,
                ) => popped.emit(item.symbol.inlined(), item.depth),
                TokenKind::Newline | TokenKind::LineContinuation | TokenKind::Comment(
                    Comment::LineComment,
                ) => popped,
                _ => popped.emit(item.symbol.with_delta(item.delta), item.depth),
            }
        }
    }

    /// Steps until no work is left or the expansion has stopped.
    pub open spec fn run(self, setting: Setting) -> ExpansionView
        decreases level_count(self.work, 0), level_count(self.work, 1), level_count(self.work, 2),
            level_count(self.work, 3), level_count(self.work, 4), level_count(self.work, 5),
    {
        if self.error is Some || self.work.len() == 0 {
            self
        } else {
            proof {
                lemma_step_decreases(self, setting);
            }
            self.step(setting).run(setting)
        }
    }
}

/// The levels of a concatenation add up.
pub proof fn lemma_level_count_add(left: Seq<WorkItemView>, right: Seq<WorkItemView>, at: nat)
    ensures
        level_count(left + right, at) == level_count(left, at) + level_count(right, at),
    decreases right.len(),
{
    if right.len() == 0 {
        assert(left + right =~= left);
    } else {
        assert((left + right).drop_last() =~= left + right.drop_last());
        lemma_level_count_add(left, right.drop_last(), at);
    }
}

/// Items that are all at one depth count at no other level.
pub proof fn lemma_level_count_elsewhere(items: Seq<WorkItemView>, depth: u32, at: nat)
    requires
        forall|i: int| 0 <= i < items.len() ==> (#[trigger] items[i]).depth == depth,
        at != level(WorkItemView { depth, ..arbitrary() }),
    ensures
        level_count(items, at) == 0,
    decreases items.len(),
{
    if items.len() > 0 {
        assert(items.last() == items[items.len() - 1]);
        lemma_level_count_elsewhere(items.drop_last(), depth, at);
    }
}

/// The work items of a substitution are all at the depth that it was
/// asked for.
pub proof fn lemma_substitute_depths(
    args: Seq<Seq<SymbolView>>,
    params: Seq<i8>,
    body: Seq<SymbolView>,
    head: SymbolView,
    depth: u32,
    so_far: Substitution,
    i: int,
)
    requires
        forall|j: int| 0 <= j < so_far.items.len() ==> (#[trigger] so_far.items[j]).depth == depth,
    ensures
        forall|j: int|
            0 <= j < substitute_from(args, params, body, head, depth, so_far, i).items.len() ==> (
            #[trigger] substitute_from(args, params, body, head, depth, so_far, i).items[j]).depth
                == depth,
    decreases body.len() - i,
{
    if so_far.error is Some || i < 0 || i >= body.len() {
    } else {
        let next = substitute_step(args, params, head, depth, so_far, i, body[i]);
        assert forall|j: int| 0 <= j < next.items.len() implies (#[trigger] next.items[j]).depth
            == depth by {
            if j < so_far.items.len() {
            }
        }
        lemma_substitute_depths(args, params, body, head, depth, next, i + 1);
    }
}

/// A step takes one item off its level and adds items only at deeper
/// levels.
pub proof fn lemma_step_decreases(state: ExpansionView, setting: Setting)
    requires
        state.work.len() > 0,
    ensures
        level_count(state.step(setting).work, level(state.work.last())) < level_count(
            state.work,
            level(state.work.last()),
        ),
        forall|at: nat|
            at < level(state.work.last()) ==> #[trigger] level_count(state.step(setting).work, at)
                == level_count(state.work, at),
{
    let item = state.work.last();
    let rest = state.work.drop_last();
    let next = state.step(setting);
    let deeper = if item.depth < MAX_DEPTH {
        (item.depth + 1) as u32
    } else {
        item.depth
    };
    assert forall|at: nat| #[trigger]
        level_count(state.work, at) == level_count(rest, at) + if level(item) == at {
            1nat
        } else {
            0nat
        } by {}
    if item.depth < MAX_DEPTH && item.symbol.token_kind == TokenKind::Identifier
        && setting.macros.contains_key(item.symbol.text) {
        let definition = setting.macros[item.symbol.text];
        let children: Seq<WorkItemView> = match definition.args {
            None => items_of(definition.body, item.symbol.delta, deeper),
            Some(params) => {
                let call = collected(setting.tokens, setting.limit, state.args_stack, state.pos);
                let body = substituted(call.args, params, definition.body, item.symbol, deeper);
                if body.error is None {
                    body.items
                } else {
                    Seq::empty()
                }
            },
        };
        assert(next.work =~= rest + children);
        assert forall|j: int| 0 <= j < children.len() implies (#[trigger] children[j]).depth
            == deeper by {
            match definition.args {
                None => {},
                Some(params) => {
                    let call = collected(
                        setting.tokens,
                        setting.limit,
                        state.args_stack,
                        state.pos,
                    );
                    lemma_substitute_depths(
                        call.args,
                        params,
                        definition.body,
                        item.symbol,
                        deeper,
                        Substitution { items: Seq::empty(), percents: 0, error: None },
                        0,
                    );
                },
            }
        }
        assert forall|at: nat| at <= level(item) implies #[trigger] level_count(next.work, at)
            == level_count(rest, at) by {
            lemma_level_count_add(rest, children, at);
            lemma_level_count_elsewhere(children, deeper, at);
        }
    } else {
        assert(next.work == rest);
    }
}

/// The expansion of `head`: what the steps come to when they start from
/// `head` alone, with the tokens read up to `pos`.
pub open spec fn expansion(setting: Setting, head: SymbolView, pos: nat) -> ExpansionView {
    ExpansionView::start(head, pos).run(setting)
}

/// The setting that an expansion over `tokens` works in.
pub open spec fn setting_of(
    tokens: Seq<TokenView>,
    limit: nat,
    macros: Map<Seq<char>, MacroView>,
    allow_undefined_macros: bool,
) -> Setting {
    Setting { tokens, limit, macros, allow_undefined_macros }
}

/// Expands `symbol`, which names a macro, and pushes the symbols that
/// stand in its place on `expansion_stack`, the last of them first, so
/// that they come off the stack in their order.
///
/// The arguments of function-like macros are read from `tokens` at `pos`
/// and never from `limit` on. The result lists the macros that the text
/// itself names: `symbol`, where a macro has its name. A name without a
/// macro stops the expansion unless `allow_undefined_macros` lets it
/// through, and so does a parameter that is none of the macro's; what
/// was pushed and read until then stays pushed and read.
pub fn expand_symbol(
    tokens: &Vec<Token>,
    pos: &mut usize,
    limit: usize,
    macros: &MacroTable,
    symbol: &Symbol,
    expansion_stack: &mut Vec<Symbol>,
    allow_undefined_macros: bool,
) -> (result: Result<Vec<Symbol>, ExpansionError>)
    ensures
        deep(final(expansion_stack)@) == deep(old(expansion_stack)@) + expansion(
            setting_of(deep(tokens@), limit as nat, macros@, allow_undefined_macros),
            symbol@,
            *old(pos) as nat,
        ).emitted,
        *final(pos) == expansion(
            setting_of(deep(tokens@), limit as nat, macros@, allow_undefined_macros),
            symbol@,
            *old(pos) as nat,
        ).pos,
        result is Ok <==> expansion(
            setting_of(deep(tokens@), limit as nat, macros@, allow_undefined_macros),
            symbol@,
            *old(pos) as nat,
        ).error is None,
        result is Ok ==> deep(result->Ok_0@) == expansion(
            setting_of(deep(tokens@), limit as nat, macros@, allow_undefined_macros),
            symbol@,
            *old(pos) as nat,
        ).expanded,
        result is Err ==> Some(result->Err_0@) == expansion(
            setting_of(deep(tokens@), limit as nat, macros@, allow_undefined_macros),
            symbol@,
            *old(pos) as nat,
        ).error,
        *final(pos) >= *old(pos),
        *final(pos) == *old(pos) || *final(pos) <= tokens@.len(),
        *final(pos) == *old(pos) || *final(pos) <= limit,
{
    let ghost setting = setting_of(deep(tokens@), limit as nat, macros@, allow_undefined_macros);
    let ghost goal = expansion(setting, symbol@, *pos as nat);
    let ghost mut state = ExpansionView::start(symbol@, *pos as nat);
    let mut expanded_macros: Vec<Symbol> = Vec::new();
    let mut stack: Vec<WorkItem> = Vec::new();
    let mut args_stack: Vec<Symbol> = Vec::new();
    let head = WorkItem { symbol: symbol.clone(), delta: symbol.delta, depth: 0 };
    stack.push(head);
    proof {
        assert(deep(stack@) =~= state.work);
        assert(deep(args_stack@) =~= state.args_stack);
        assert(deep(expanded_macros@) =~= state.expanded);
        assert(deep(expansion_stack@) + state.emitted =~= deep(expansion_stack@));
    }
    loop
        invariant
            setting == setting_of(deep(tokens@), limit as nat, macros@, allow_undefined_macros),
            state.error is None,
            goal == expansion(setting, symbol@, *old(pos) as nat),
            state.run(setting) == goal,
            deep(stack@) == state.work,
            deep(args_stack@) == state.args_stack,
            *pos == state.pos,
            deep(expansion_stack@) == deep(old(expansion_stack)@) + state.emitted,
            deep(expanded_macros@) == state.expanded,
            *pos >= *old(pos),
            *pos == *old(pos) || *pos <= tokens@.len(),
            *pos == *old(pos) || *pos <= limit,
        ensures
            state.work.len() == 0,
            state.error is None,
            state.run(setting) == goal,
            *pos == state.pos,
            deep(expansion_stack@) == deep(old(expansion_stack)@) + state.emitted,
            deep(expanded_macros@) == state.expanded,
            *pos >= *old(pos),
            *pos == *old(pos) || *pos <= tokens@.len(),
            *pos == *old(pos) || *pos <= limit,
        decreases level_count(state.work, 0), level_count(state.work, 1), level_count(state.work, 2),
            level_count(state.work, 3), level_count(state.work, 4), level_count(state.work, 5),
    {
        let ghost work_before = stack@;
        let ghost before = state;
        let item = match stack.pop() {
            Some(item) => item,
            None => {
                break ;
            },
        };
        let ghost popped = ExpansionView { work: before.work.drop_last(), ..before };
        let ghost emitted_before = expansion_stack@;
        proof {
            lemma_deep_drop_last(work_before);
            lemma_step_decreases(before, setting);
            assert(item@ == before.work.last());
            state = before.step(setting);
        }
        if item.depth >= MAX_DEPTH {
        } else {
            match item.symbol.token_kind {
                TokenKind::Identifier => {
                    match macros.get(item.symbol.text.as_str()) {
                        None => {
                            if !allow_undefined_macros {
                                let error = MacroNotFoundError::new(
                                    item.symbol.text.clone(),
                                    item.symbol.range,
                                );
                                proof {
                                    assert(state.run(setting) == state);
                                }
                                return Err(ExpansionError::MacroNotFound(error));
                            }
                            let emitted = item.symbol.with_delta(item.delta);
                            expansion_stack.push(emitted);
                            proof {
                                lemma_deep_push(emitted_before, emitted);
                                assert(deep(old(expansion_stack)@) + popped.emitted.push(emitted@)
                                    =~= (deep(old(expansion_stack)@) + popped.emitted).push(
                                    emitted@,
                                ));
                            }
                        },
                        Some(macro_) => {
                            let ghost noted_before = expanded_macros@;
                            if item.depth == 0 {
                                expanded_macros.push(item.symbol.clone());
                                proof {
                                    lemma_deep_push(noted_before, expanded_macros@.last());
                                }
                            }
                            if macro_.args.is_none() {
                                expand_non_macro_define(macro_, &mut stack, &item.symbol, item.depth);
                            } else {
                                let args = collect_arguments(tokens, pos, limit, &mut args_stack);
                                match expand_macro(&args, macro_, &mut stack, &item.symbol, item.depth) {
                                    Ok(_) => {},
                                    Err(error) => {
                                        proof {
                                            assert(state.run(setting) == state);
                                        }
                                        return Err(ExpansionError::Parse(error));
                                    },
                                }
                            }
                        },
                    }
                },
                TokenKind::Literal(Literal::StringLiteral) | TokenKind::Literal(
                    Literal::CharLiteral,
                ) => {
                    let emitted = item.symbol.inlined();
                    expansion_stack.push(emitted);
                    proof {
                        lemma_deep_push(emitted_before, emitted);
                        assert(deep(old(expansion_stack)@) + popped.emitted.push(emitted@) =~= (deep(
                            old(expansion_stack)@,
                        ) + popped.emitted).push(emitted@));
                    }
                },
                TokenKind::Newline | TokenKind::LineContinuation | TokenKind::Comment(
                    Comment::LineComment,
                ) => {},
                _ => {
                    let emitted = item.symbol.with_delta(item.delta);
                    expansion_stack.push(emitted);
                    proof {
                        lemma_deep_push(emitted_before, emitted);
                        assert(deep(old(expansion_stack)@) + popped.emitted.push(emitted@) =~= (deep(
                            old(expansion_stack)@,
                        ) + popped.emitted).push(emitted@));
                    }
                },
            }
        }
    }
    Ok(expanded_macros)
}

/// What holds of the symbols that an expansion has given: each has its
/// depth on record, below the depth limit; and where names without a
/// macro are not let through, none of them is a name.
pub open spec fn emitted_in_bounds(state: ExpansionView, setting: Setting) -> bool {
    &&& state.depths.len() == state.emitted.len()
    &&& forall|i: int| 0 <= i < state.depths.len() ==> #[trigger] state.depths[i] < MAX_DEPTH
    &&& !setting.allow_undefined_macros ==> forall|i: int|
        0 <= i < state.emitted.len() ==> (#[trigger] state.emitted[i]).token_kind
            != TokenKind::Identifier
}

/// Running an expansion keeps what holds of the symbols that it has
/// given.
pub proof fn lemma_run_keeps_bounds(state: ExpansionView, setting: Setting)
    requires
        emitted_in_bounds(state, setting),
    ensures
        emitted_in_bounds(state.run(setting), setting),
    decreases level_count(state.work, 0), level_count(state.work, 1), level_count(state.work, 2),
        level_count(state.work, 3), level_count(state.work, 4), level_count(state.work, 5),
{
    if state.error is Some || state.work.len() == 0 {
    } else {
        lemma_step_decreases(state, setting);
        let next = state.step(setting);
        assert(emitted_in_bounds(next, setting));
        lemma_run_keeps_bounds(next, setting);
    }
}

/// No symbol of an expansion is reached through the depth limit or
/// more substitutions: every symbol that the expansion of `head` gives
/// has a depth on record, and that depth is below [`MAX_DEPTH`].
pub proof fn lemma_expansion_depth_bound(setting: Setting, head: SymbolView, pos: nat)
    ensures
        expansion(setting, head, pos).depths.len() == expansion(setting, head, pos).emitted.len(),
        forall|i: int|
            0 <= i < expansion(setting, head, pos).depths.len() ==> #[trigger] expansion(
                setting,
                head,
                pos,
            ).depths[i] < MAX_DEPTH,
{
    lemma_run_keeps_bounds(ExpansionView::start(head, pos), setting);
}

/// Where names without a macro are not let through, an expansion gives
/// no name.
pub proof fn lemma_strict_expansion_gives_no_name(setting: Setting, head: SymbolView, pos: nat)
    requires
        !setting.allow_undefined_macros,
    ensures
        forall|i: int|
            0 <= i < expansion(setting, head, pos).emitted.len() ==> (#[trigger] expansion(
                setting,
                head,
                pos,
            ).emitted[i]).token_kind != TokenKind::Identifier,
{
    lemma_run_keeps_bounds(ExpansionView::start(head, pos), setting);
}

/// Collecting arguments reads the tokens forwards and never past their
/// end.
pub proof fn lemma_collect_loop_pos(
    tokens: Seq<TokenView>,
    limit: nat,
    collector: CollectorView,
    args_stack: Seq<SymbolView>,
    pos: nat,
)
    ensures
        collect_loop(tokens, limit, collector, args_stack, pos).2 >= pos,
        collect_loop(tokens, limit, collector, args_stack, pos).2 == pos || collect_loop(
            tokens,
            limit,
            collector,
            args_stack,
            pos,
        ).2 <= tokens.len(),
    decreases readable(tokens, limit, args_stack, pos),
{
    if collector.done {
    } else if args_stack.len() > 0 {
        lemma_collect_loop_pos(
            tokens,
            limit,
            collector.feed(args_stack.last()),
            args_stack.drop_last(),
            pos,
        );
    } else if pos < limit && pos < tokens.len() {
        lemma_collect_loop_pos(
            tokens,
            limit,
            collector.feed(tokens[pos as int].symbol),
            args_stack,
            pos + 1,
        );
    }
}

/// Running an expansion reads the tokens forwards and never past their
/// end.
pub proof fn lemma_run_pos(state: ExpansionView, setting: Setting)
    ensures
        state.run(setting).pos >= state.pos,
        state.run(setting).pos == state.pos || state.run(setting).pos <= setting.tokens.len(),
    decreases level_count(state.work, 0), level_count(state.work, 1), level_count(state.work, 2),
        level_count(state.work, 3), level_count(state.work, 4), level_count(state.work, 5),
{
    if state.error is Some || state.work.len() == 0 {
    } else {
        lemma_step_decreases(state, setting);
        let next = state.step(setting);
        lemma_collect_loop_pos(
            setting.tokens,
            setting.limit,
            CollectorView::start(),
            state.args_stack,
            state.pos,
        );
        assert(next.pos >= state.pos);
        assert(next.pos == state.pos || next.pos <= setting.tokens.len());
        lemma_run_pos(next, setting);
    }
}

/// An expansion reads the tokens forwards and never past their end.
pub proof fn lemma_expansion_pos(setting: Setting, head: SymbolView, pos: nat)
    ensures
        expansion(setting, head, pos).pos >= pos,
        expansion(setting, head, pos).pos == pos || expansion(setting, head, pos).pos
            <= setting.tokens.len(),
{
    lemma_run_pos(ExpansionView::start(head, pos), setting);
}

} // verus!
