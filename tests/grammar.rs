use phobos::first_set::{derive_first_sets, first_step_rows};
use phobos::follow_set::{derive_follow_sets, follow_step_rows};
use phobos::parser_builder::ParserBuilder;
use phobos::production::{Production, ProductionBuilder};
use phobos::symbol::{PossiblyEmptyTerminalSymbol as Fe, PossiblyEndOfFileTerminalSymbol as Fo, Symbol, SymbolSequence};

type Reducer = fn(Vec<Symbol>) -> usize;

fn reduce(_children: Vec<Symbol>) -> usize {
    0
}

fn prod(lhs: usize, body: SymbolSequence) -> Production<Reducer> {
    Production::builder().producing(lhs).from(body).with_handler(reduce as Reducer).build().unwrap()
}

fn t(i: usize) -> SymbolSequence {
    SymbolSequence::from_terminal(i)
}

fn n(i: usize) -> SymbolSequence {
    SymbolSequence::from_nonterminal(i)
}

#[test]
fn balanced_pairs_sets() {
    // S -> a S b | ε over a = 0, b = 1
    let s = 0;
    let g = ParserBuilder::new(2, 1)
        .with_production(prod(s, SymbolSequence::Sequence(vec![t(0), n(s), t(1)])))
        .with_production(prod(s, SymbolSequence::from_symbol(Symbol::Empty)))
        .with_start_symbol(s)
        .build()
        .unwrap();
    assert_eq!(g.first_set(s), vec![Fe::Terminal(0), Fe::Empty]);
    assert_eq!(g.follow_set(s), vec![Fo::Terminal(1), Fo::EndOfFile]);
}

fn expression_grammar() -> ParserBuilder<Reducer> {
    // E -> E + T | T; T -> T * F | F; F -> ( E ) | id
    let (e, tt, f) = (0, 1, 2);
    let (plus, star, open, close, id) = (0, 1, 2, 3, 4);
    ParserBuilder::new(5, 3)
        .with_production(prod(e, SymbolSequence::either(SymbolSequence::Sequence(vec![n(e), t(plus), n(tt)]), n(tt))))
        .with_production(prod(tt, SymbolSequence::either(SymbolSequence::Sequence(vec![n(tt), t(star), n(f)]), n(f))))
        .with_production(prod(f, SymbolSequence::either(SymbolSequence::Sequence(vec![t(open), n(e), t(close)]), t(id))))
        .with_start_symbol(e)
}

#[test]
fn expression_grammar_sets() {
    let g = expression_grammar().build().unwrap();
    for nt in 0..3 {
        assert_eq!(g.first_set(nt), vec![Fe::Terminal(2), Fe::Terminal(4)]);
    }
    assert_eq!(g.follow_set(0), vec![Fo::Terminal(0), Fo::Terminal(3), Fo::EndOfFile]);
    assert_eq!(g.follow_set(1), vec![Fo::Terminal(0), Fo::Terminal(1), Fo::Terminal(3), Fo::EndOfFile]);
    assert_eq!(g.follow_set(2), g.follow_set(1));
}

#[test]
fn build_needs_start_symbol_with_production() {
    let no_start = ParserBuilder::<Reducer>::new(1, 2).with_production(prod(0, t(0))).build();
    assert!(no_start.is_none());
    let unproduced = ParserBuilder::<Reducer>::new(1, 2).with_production(prod(0, t(0))).with_start_symbol(1).build();
    assert!(unproduced.is_none());
    let ok = ParserBuilder::<Reducer>::new(1, 2).with_production(prod(0, t(0))).with_start_symbol(0).build();
    assert!(ok.is_some());
}

#[test]
fn production_builder_needs_all_settings() {
    let missing_handler: Option<Production<Reducer>> = ProductionBuilder::new().producing(0).from(t(0)).build();
    assert!(missing_handler.is_none());
    let missing_body: Option<Production<Reducer>> = ProductionBuilder::new().producing(0).with_handler(reduce as Reducer).build();
    assert!(missing_body.is_none());
    let p = prod(3, t(1));
    assert!(p.produces(3));
    assert!(!p.produces(1));
}

#[test]
fn optional_and_repeated_sets() {
    // A -> { x } [ y ] z ; B -> A w ; start B. x=0,y=1,z=2,w=3
    let (a, b) = (0, 1);
    let g = ParserBuilder::new(4, 2)
        .with_production(prod(a, SymbolSequence::Sequence(vec![
            SymbolSequence::many(n(b)),
            SymbolSequence::maybe(t(1)),
            t(2),
        ])))
        .with_production(prod(b, SymbolSequence::Sequence(vec![t(0), n(a), t(3)])))
        .with_start_symbol(a)
        .build()
        .unwrap();
    assert_eq!(g.first_set(a), vec![Fe::Terminal(0), Fe::Terminal(1), Fe::Terminal(2)]);
    assert_eq!(g.first_set(b), vec![Fe::Terminal(0)]);
    // B may repeat, so B is followed by x, then by y or z
    assert_eq!(g.follow_set(b), vec![Fo::Terminal(0), Fo::Terminal(1), Fo::Terminal(2)]);
    assert_eq!(g.follow_set(a), vec![Fo::Terminal(3), Fo::EndOfFile]);
}

#[test]
fn explicit_empty_terminal() {
    // A -> e | x, where terminal e (0) stands for ε
    let g = ParserBuilder::new(2, 1)
        .with_empty_symbol(0)
        .with_production(prod(0, SymbolSequence::either(t(0), t(1))))
        .with_start_symbol(0)
        .build()
        .unwrap();
    assert_eq!(g.first_set(0), vec![Fe::Terminal(1), Fe::Empty]);
    assert!(g.first_contains(0, Fe::Empty));
    assert!(!g.first_contains(0, Fe::Terminal(0)));
    assert!(g.follow_contains(0, Fo::EndOfFile));
}

#[test]
fn missing_nonterminal_contributes_nothing() {
    // A -> B x, with no production for B
    let g = ParserBuilder::new(1, 2)
        .with_production(prod(0, SymbolSequence::Sequence(vec![n(1), t(0)])))
        .with_start_symbol(0)
        .build()
        .unwrap();
    assert_eq!(g.first_set(0), Vec::<Fe>::new());
    assert_eq!(g.first_set(1), Vec::<Fe>::new());
    assert_eq!(g.follow_set(1), vec![Fo::Terminal(0)]);
}

#[test]
fn dependencies_are_collected_once() {
    let body = SymbolSequence::Sequence(vec![n(1), SymbolSequence::many(SymbolSequence::either(n(1), t(2))), t(2)]);
    let deps = body.collect_dependencies();
    assert_eq!(deps, vec![Symbol::Nonterminal(1), Symbol::Terminal(2)]);
}

#[test]
fn one_more_round_changes_nothing() {
    let b = expression_grammar();
    let first = derive_first_sets(&b.productions, b.shape);
    assert_eq!(first_step_rows(&b.productions, b.shape, &first), first);
    let follow = derive_follow_sets(&b.productions, b.shape, 0, &first);
    assert_eq!(follow_step_rows(&b.productions, b.shape, 0, &first, &follow), follow);
    // FIRST of a body is inside FIRST of its left-hand side
    let g = expression_grammar().build().unwrap();
    let body = SymbolSequence::Sequence(vec![n(1), t(1), n(2)]);
    let row = g.first_of_sequence(&body);
    for (e, present) in row.iter().enumerate() {
        if *present {
            assert!(g.first_sets[1][e]);
        }
    }
}

#[test]
fn follow_of_occurrence_in_sequence() {
    // A -> B C x ; C -> y | ε ; start A. x=0, y=1; A=0, B=1, C=2
    let g = ParserBuilder::new(2, 3)
        .with_production(prod(0, SymbolSequence::Sequence(vec![n(1), n(2), t(0)])))
        .with_production(prod(2, SymbolSequence::either(t(1), SymbolSequence::from_symbol(Symbol::Empty))))
        .with_start_symbol(0)
        .build()
        .unwrap();
    assert_eq!(g.follow_set(1), vec![Fo::Terminal(0), Fo::Terminal(1)]);
    assert_eq!(g.follow_set(2), vec![Fo::Terminal(0)]);
    assert_eq!(g.follow_set(0), vec![Fo::EndOfFile]);
    assert!(g.first_contains(2, Fe::Empty));
    assert!(!g.first_contains(0, Fe::Empty));
}
