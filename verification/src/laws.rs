//! Laws of the library, proved once and for all: the loss count formula,
//! the shape of a report of an empty run, the priority of the red rule,
//! and the meaning of the default rule expressions on any metrics map.

use vstd::prelude::*;

verus! {

use crate::expressions::{
    calc_bool_v, eval_v, num_val, parse_and_v, parse_cmp_v, parse_not_v, parse_or_v,
    parse_primary_v, parse_v, scan_ident_end, scan_num_end, scan_token, tok_from, tokens_of,
    CmpOp, EvalError, ExprV, ParseError, TokenV,
};
use crate::numfmt::sat_i64;
use crate::ping::{
    color_of, lost_of, meta_line, metadata_lines, metrics_of, received_count_of, report_of,
    rtt_stats_of, status_line, PingResult,
};
use crate::value::ValueV;

broadcast use vstd::string::group_string_axioms;

/// Losses are what remains of the expected count after the received
/// samples; the count never goes negative, and whenever no more was
/// received than expected, it is exactly the difference.
pub proof fn lemma_lost_formula(count: int, received: int)
    ensures
        lost_of(count, received) >= 0,
        0 <= received <= count ==> lost_of(count, received) == count - received,
{
}

/// A received count is never negative and never exceeds the number of
/// observations.
pub proof fn lemma_received_count_bounds(results: Seq<PingResult>)
    ensures
        0 <= received_count_of(results) <= results.len(),
    decreases results.len(),
{
    if results.len() > 0 {
        lemma_received_count_bounds(results.drop_last());
    }
}

proof fn lemma_meta_is_not_status(key: Seq<char>, v: int, c: Seq<char>)
    ensures
        meta_line(key, v) != status_line(c),
{
    reveal_strlit("status.metadata.");
    reveal_strlit("status.status=\"");
    assert(("status.metadata."@ + key)[7] == 'm');
    assert((("status.metadata."@ + key) + "=\""@)[7] == 'm');
    assert(meta_line(key, v)[7] == 'm');
    assert(status_line(c)[7] == 's');
}

/// A run with no observations settles every round-trip metric to the
/// warning timeout sentinel, and its report holds the seven metadata lines
/// followed by exactly one status line.
pub proof fn lemma_empty_run_report(
    count: int,
    wt_us: int,
    red: Seq<char>,
    green: Seq<char>,
    blue: Seq<char>,
    orange: Seq<char>,
    yellow: Seq<char>,
)
    ensures
        rtt_stats_of(Seq::<PingResult>::empty(), wt_us) == (wt_us, wt_us, wt_us),
        ({
            let rep = report_of(
                Seq::<PingResult>::empty(),
                count,
                wt_us,
                red,
                green,
                blue,
                orange,
                yellow,
            );
            &&& rep.len() == 8
            &&& rep[3] == meta_line("rtt_avg"@, sat_i64(wt_us))
            &&& rep[4] == meta_line("rtt_max"@, sat_i64(wt_us))
            &&& rep[5] == meta_line("rtt_min"@, sat_i64(wt_us))
            &&& (exists|c: Seq<char>| rep[7] == status_line(c))
            &&& (forall|i: int, c: Seq<char>| 0 <= i < 7 ==> rep[i] != status_line(c))
        }),
{
    let results = Seq::<PingResult>::empty();
    assert(rtt_stats_of(results, wt_us) == (wt_us, wt_us, wt_us));
    let rep = report_of(results, count, wt_us, red, green, blue, orange, yellow);
    let m = metrics_of(results, count, wt_us);
    let c0 = color_of(
        calc_bool_v(red, m),
        calc_bool_v(orange, m),
        calc_bool_v(yellow, m),
        calc_bool_v(blue, m),
        calc_bool_v(green, m),
    );
    assert(rep.len() == 8);
    assert(rep[7] == status_line(c0));
    let lines = metadata_lines(results, count, wt_us);
    assert forall|i: int, c: Seq<char>| 0 <= i < 7 implies rep[i] != status_line(c) by {
        assert(rep[i] == lines[i]);
        if i == 0 {
            lemma_meta_is_not_status("count"@, sat_i64(count), c);
        } else if i == 1 {
            lemma_meta_is_not_status("lost"@, sat_i64(lost_of(count, 0)), c);
        } else if i == 2 {
            lemma_meta_is_not_status("received"@, sat_i64(0), c);
        } else if i == 3 {
            lemma_meta_is_not_status("rtt_avg"@, sat_i64(wt_us), c);
        } else if i == 4 {
            lemma_meta_is_not_status("rtt_max"@, sat_i64(wt_us), c);
        } else if i == 5 {
            lemma_meta_is_not_status("rtt_min"@, sat_i64(wt_us), c);
        } else {
            lemma_meta_is_not_status("warning_timeout"@, sat_i64(wt_us), c);
        }
    }
}

proof fn lemma_tokenize_false()
    ensures
        tokens_of("false"@) == Ok::<Seq<TokenV>, ParseError>(seq![TokenV::KwFalse]),
{
    reveal_strlit("false");
    let s = "false"@;
    assert(s.len() == 5);
    reveal_with_fuel(scan_ident_end, 7);
    assert(scan_ident_end(s, 0) == 5);
    assert(s.subrange(0, 5) =~= seq!['f', 'a', 'l', 's', 'e']);
    assert(scan_token(s, 0) == Ok::<(TokenV, int), ParseError>((TokenV::KwFalse, 5)));
    reveal_with_fuel(tok_from, 3);
    assert(tok_from(s, 5) == Ok::<Seq<TokenV>, ParseError>(Seq::empty()));
    assert(seq![TokenV::KwFalse] + Seq::<TokenV>::empty() =~= seq![TokenV::KwFalse]);
}

/// The rule `"false"` is false against every metrics map.
pub proof fn lemma_rule_false_never_true(m: Map<Seq<char>, ValueV>)
    ensures
        !calc_bool_v("false"@, m),
{
    lemma_tokenize_false();
    let toks = seq![TokenV::KwFalse];
    let lit = ExprV::Lit(ValueV::Bool(false));
    assert(crate::expressions::parse_primary_v(toks, 0) == Ok::<(ExprV, int), ParseError>(
        (lit, 1),
    ));
    assert(crate::expressions::parse_cmp_v(toks, 0) == Ok::<(ExprV, int), ParseError>((lit, 1)));
    assert(crate::expressions::parse_not_v(toks, 0) == Ok::<(ExprV, int), ParseError>((lit, 1)));
    assert(crate::expressions::parse_and_v(toks, 0) == Ok::<(ExprV, int), ParseError>((lit, 1)));
    assert(parse_or_v(toks, 0) == Ok::<(ExprV, int), ParseError>((lit, 1)));
    assert(parse_v(toks) == Ok::<ExprV, ParseError>(lit));
}

proof fn lemma_metric_key_facts()
    ensures
        "count"@.len() == 5,
        "lost"@.len() == 4,
        "received"@.len() == 8,
        "rtt_avg"@.len() == 7,
        "rtt_min"@.len() == 7,
        "rtt_max"@.len() == 7,
        "warning_timeout"@.len() == 15,
        "rtt_avg"@[4] == 'a',
        "rtt_min"@[4] == 'm',
        "rtt_max"@[4] == 'm',
        "rtt_min"@[5] == 'i',
        "rtt_max"@[5] == 'a',
{
    reveal_strlit("count");
    reveal_strlit("lost");
    reveal_strlit("received");
    reveal_strlit("rtt_avg");
    reveal_strlit("rtt_min");
    reveal_strlit("rtt_max");
    reveal_strlit("warning_timeout");
}

proof fn lemma_tokenize_default_red()
    ensures
        tokens_of("lost == count"@) == Ok::<Seq<TokenV>, ParseError>(
            seq![
                TokenV::Ident("lost"@),
                TokenV::Op(CmpOp::Eq),
                TokenV::Ident("count"@),
            ],
        ),
{
    reveal_strlit("lost == count");
    reveal_strlit("lost");
    reveal_strlit("count");
    let s = "lost == count"@;
    assert(s.len() == 13);
    reveal_with_fuel(scan_ident_end, 8);
    assert(scan_ident_end(s, 0) == 4);
    assert(s.subrange(0, 4) =~= "lost"@);
    assert(scan_token(s, 0) == Ok::<(TokenV, int), ParseError>((TokenV::Ident("lost"@), 4)));
    assert(scan_token(s, 5) == Ok::<(TokenV, int), ParseError>((TokenV::Op(CmpOp::Eq), 7)));
    assert(scan_ident_end(s, 8) == 13);
    assert(s.subrange(8, 13) =~= "count"@);
    assert(scan_token(s, 8) == Ok::<(TokenV, int), ParseError>((TokenV::Ident("count"@), 13)));
    reveal_with_fuel(tok_from, 3);
    assert(tok_from(s, 13) == Ok::<Seq<TokenV>, ParseError>(Seq::empty()));
    let t2 = seq![TokenV::Ident("count"@)] + Seq::<TokenV>::empty();
    assert(tok_from(s, 8) == Ok::<Seq<TokenV>, ParseError>(t2));
    assert(tok_from(s, 7) == tok_from(s, 8));
    let t1 = seq![TokenV::Op(CmpOp::Eq)] + t2;
    assert(tok_from(s, 5) == Ok::<Seq<TokenV>, ParseError>(t1));
    assert(tok_from(s, 4) == tok_from(s, 5));
    let t0 = seq![TokenV::Ident("lost"@)] + t1;
    assert(tok_from(s, 0) == Ok::<Seq<TokenV>, ParseError>(t0));
    assert(t0 =~= seq![TokenV::Ident("lost"@), TokenV::Op(CmpOp::Eq), TokenV::Ident("count"@)]);
}

/// The default red rule, `lost == count`, is true against a metrics map
/// exactly when its `lost` metric equals its `count` metric.
pub proof fn lemma_default_red_rule(m: Map<Seq<char>, ValueV>, lost: int, count: int)
    requires
        m.contains_key("lost"@),
        m["lost"@] == ValueV::Int(lost),
        m.contains_key("count"@),
        m["count"@] == ValueV::Int(count),
    ensures
        calc_bool_v("lost == count"@, m) == (lost == count),
{
    lemma_tokenize_default_red();
    let toks = seq![TokenV::Ident("lost"@), TokenV::Op(CmpOp::Eq), TokenV::Ident("count"@)];
    let li = ExprV::Ident("lost"@);
    let ci = ExprV::Ident("count"@);
    let e = ExprV::Cmp(CmpOp::Eq, Box::new(li), Box::new(ci));
    assert(parse_primary_v(toks, 0) == Ok::<(ExprV, int), ParseError>((li, 1)));
    assert(parse_primary_v(toks, 2) == Ok::<(ExprV, int), ParseError>((ci, 3)));
    assert(parse_cmp_v(toks, 0) == Ok::<(ExprV, int), ParseError>((e, 3)));
    assert(parse_not_v(toks, 0) == Ok::<(ExprV, int), ParseError>((e, 3)));
    assert(parse_and_v(toks, 0) == Ok::<(ExprV, int), ParseError>((e, 3)));
    assert(parse_or_v(toks, 0) == Ok::<(ExprV, int), ParseError>((e, 3)));
    assert(parse_v(toks) == Ok::<ExprV, ParseError>(e));
    assert(eval_v(li, m) == Ok::<ValueV, EvalError>(ValueV::Int(lost)));
    assert(eval_v(ci, m) == Ok::<ValueV, EvalError>(ValueV::Int(count)));
    assert(eval_v(e, m) == Ok::<ValueV, EvalError>(ValueV::Bool(lost == count)));
}

/// Against the metrics of a run with expected count `count`, the default
/// red rule is true exactly when every expected sample was lost.
pub proof fn lemma_default_red_on_metrics(results: Seq<PingResult>, count: int, wt_us: int)
    requires
        0 <= count <= i64::MAX,
    ensures
        calc_bool_v("lost == count"@, metrics_of(results, count, wt_us)) == (lost_of(
            count,
            received_count_of(results),
        ) == count),
{
    lemma_received_count_bounds(results);
    lemma_metric_key_facts();
    let m = metrics_of(results, count, wt_us);
    let lost = lost_of(count, received_count_of(results));
    assert(m["lost"@] == ValueV::Int(sat_i64(lost)));
    assert(m["count"@] == ValueV::Int(sat_i64(count)));
    lemma_default_red_rule(m, sat_i64(lost), sat_i64(count));
}

proof fn lemma_tokenize_default_orange()
    ensures
        tokens_of("lost > 0 or (lost == 0 and rtt_max > warning_timeout)"@) == Ok::<
            Seq<TokenV>,
            ParseError,
        >(
            seq![
                TokenV::Ident("lost"@),
                TokenV::Op(CmpOp::Gt),
                TokenV::IntLit(0),
                TokenV::KwOr,
                TokenV::LParen,
                TokenV::Ident("lost"@),
                TokenV::Op(CmpOp::Eq),
                TokenV::IntLit(0),
                TokenV::KwAnd,
                TokenV::Ident("rtt_max"@),
                TokenV::Op(CmpOp::Gt),
                TokenV::Ident("warning_timeout"@),
                TokenV::RParen,
            ],
        ),
{
    reveal_strlit("lost > 0 or (lost == 0 and rtt_max > warning_timeout)");
    reveal_strlit("lost");
    reveal_strlit("rtt_max");
    reveal_strlit("warning_timeout");
    let s = "lost > 0 or (lost == 0 and rtt_max > warning_timeout)"@;
    assert(s.len() == 53);
    reveal_with_fuel(scan_ident_end, 17);
    reveal_with_fuel(scan_num_end, 3);
    reveal_with_fuel(num_val, 3);
    assert(scan_ident_end(s, 0) == 4);
    assert(s.subrange(0, 4) =~= "lost"@);
    assert(scan_token(s, 0) == Ok::<(TokenV, int), ParseError>((TokenV::Ident("lost"@), 4)));
    assert(scan_token(s, 5) == Ok::<(TokenV, int), ParseError>((TokenV::Op(CmpOp::Gt), 6)));
    assert(scan_num_end(s, 7) == 8);
    assert(num_val(s, 7, 8) == 0);
    assert(scan_token(s, 7) == Ok::<(TokenV, int), ParseError>((TokenV::IntLit(0), 8)));
    assert(scan_ident_end(s, 9) == 11);
    assert(s.subrange(9, 11) =~= seq!['o', 'r']);
    assert(scan_token(s, 9) == Ok::<(TokenV, int), ParseError>((TokenV::KwOr, 11)));
    assert(scan_token(s, 12) == Ok::<(TokenV, int), ParseError>((TokenV::LParen, 13)));
    assert(scan_ident_end(s, 13) == 17);
    assert(s.subrange(13, 17) =~= "lost"@);
    assert(scan_token(s, 13) == Ok::<(TokenV, int), ParseError>((TokenV::Ident("lost"@), 17)));
    assert(scan_token(s, 18) == Ok::<(TokenV, int), ParseError>((TokenV::Op(CmpOp::Eq), 20)));
    assert(scan_num_end(s, 21) == 22);
    assert(num_val(s, 21, 22) == 0);
    assert(scan_token(s, 21) == Ok::<(TokenV, int), ParseError>((TokenV::IntLit(0), 22)));
    assert(scan_ident_end(s, 23) == 26);
    assert(s.subrange(23, 26) =~= seq!['a', 'n', 'd']);
    assert(scan_token(s, 23) == Ok::<(TokenV, int), ParseError>((TokenV::KwAnd, 26)));
    assert(scan_ident_end(s, 27) == 34);
    assert(s.subrange(27, 34) =~= "rtt_max"@);
    assert(scan_token(s, 27) == Ok::<(TokenV, int), ParseError>((TokenV::Ident("rtt_max"@), 34)));
    assert(scan_token(s, 35) == Ok::<(TokenV, int), ParseError>((TokenV::Op(CmpOp::Gt), 36)));
    assert(scan_ident_end(s, 37) == 52);
    assert(s.subrange(37, 52) =~= "warning_timeout"@);
    assert(scan_token(s, 37) == Ok::<(TokenV, int), ParseError>(
        (TokenV::Ident("warning_timeout"@), 52),
    ));
    assert(scan_token(s, 52) == Ok::<(TokenV, int), ParseError>((TokenV::RParen, 53)));
    reveal_with_fuel(tok_from, 3);
    assert(tok_from(s, 53) == Ok::<Seq<TokenV>, ParseError>(Seq::empty()));
    let t12 = seq![TokenV::RParen] + Seq::<TokenV>::empty();
    assert(tok_from(s, 52) == Ok::<Seq<TokenV>, ParseError>(t12));
    let t11 = seq![TokenV::Ident("warning_timeout"@)] + t12;
    assert(tok_from(s, 37) == Ok::<Seq<TokenV>, ParseError>(t11));
    assert(tok_from(s, 36) == tok_from(s, 37));
    let t10 = seq![TokenV::Op(CmpOp::Gt)] + t11;
    assert(tok_from(s, 35) == Ok::<Seq<TokenV>, ParseError>(t10));
    assert(tok_from(s, 34) == tok_from(s, 35));
    let t9 = seq![TokenV::Ident("rtt_max"@)] + t10;
    assert(tok_from(s, 27) == Ok::<Seq<TokenV>, ParseError>(t9));
    assert(tok_from(s, 26) == tok_from(s, 27));
    let t8 = seq![TokenV::KwAnd] + t9;
    assert(tok_from(s, 23) == Ok::<Seq<TokenV>, ParseError>(t8));
    assert(tok_from(s, 22) == tok_from(s, 23));
    let t7 = seq![TokenV::IntLit(0)] + t8;
    assert(tok_from(s, 21) == Ok::<Seq<TokenV>, ParseError>(t7));
    assert(tok_from(s, 20) == tok_from(s, 21));
    let t6 = seq![TokenV::Op(CmpOp::Eq)] + t7;
    assert(tok_from(s, 18) == Ok::<Seq<TokenV>, ParseError>(t6));
    assert(tok_from(s, 17) == tok_from(s, 18));
    let t5 = seq![TokenV::Ident("lost"@)] + t6;
    assert(tok_from(s, 13) == Ok::<Seq<TokenV>, ParseError>(t5));
    let t4 = seq![TokenV::LParen] + t5;
    assert(tok_from(s, 12) == Ok::<Seq<TokenV>, ParseError>(t4));
    assert(tok_from(s, 11) == tok_from(s, 12));
    let t3 = seq![TokenV::KwOr] + t4;
    assert(tok_from(s, 9) == Ok::<Seq<TokenV>, ParseError>(t3));
    assert(tok_from(s, 8) == tok_from(s, 9));
    let t2 = seq![TokenV::IntLit(0)] + t3;
    assert(tok_from(s, 7) == Ok::<Seq<TokenV>, ParseError>(t2));
    assert(tok_from(s, 6) == tok_from(s, 7));
    let t1 = seq![TokenV::Op(CmpOp::Gt)] + t2;
    assert(tok_from(s, 5) == Ok::<Seq<TokenV>, ParseError>(t1));
    assert(tok_from(s, 4) == tok_from(s, 5));
    let t0 = seq![TokenV::Ident("lost"@)] + t1;
    assert(tok_from(s, 0) == Ok::<Seq<TokenV>, ParseError>(t0));
    assert(t0 =~= seq![
        TokenV::Ident("lost"@),
        TokenV::Op(CmpOp::Gt),
        TokenV::IntLit(0),
        TokenV::KwOr,
        TokenV::LParen,
        TokenV::Ident("lost"@),
        TokenV::Op(CmpOp::Eq),
        TokenV::IntLit(0),
        TokenV::KwAnd,
        TokenV::Ident("rtt_max"@),
        TokenV::Op(CmpOp::Gt),
        TokenV::Ident("warning_timeout"@),
        TokenV::RParen,
    ]);
}

/// The default orange rule is true against a metrics map exactly when
/// something was lost, or nothing was lost but the slowest reply overran
/// the warning timeout.
pub proof fn lemma_default_orange_rule(
    m: Map<Seq<char>, ValueV>,
    lost: int,
    rtt_max: int,
    wt: int,
)
    requires
        m.contains_key("lost"@),
        m["lost"@] == ValueV::Int(lost),
        m.contains_key("rtt_max"@),
        m["rtt_max"@] == ValueV::Int(rtt_max),
        m.contains_key("warning_timeout"@),
        m["warning_timeout"@] == ValueV::Int(wt),
    ensures
        calc_bool_v("lost > 0 or (lost == 0 and rtt_max > warning_timeout)"@, m) == (lost > 0 || (
        lost == 0 && rtt_max > wt)),
{
    lemma_tokenize_default_orange();
    let toks = seq![
        TokenV::Ident("lost"@),
        TokenV::Op(CmpOp::Gt),
        TokenV::IntLit(0),
        TokenV::KwOr,
        TokenV::LParen,
        TokenV::Ident("lost"@),
        TokenV::Op(CmpOp::Eq),
        TokenV::IntLit(0),
        TokenV::KwAnd,
        TokenV::Ident("rtt_max"@),
        TokenV::Op(CmpOp::Gt),
        TokenV::Ident("warning_timeout"@),
        TokenV::RParen,
    ];
    let lost_i = ExprV::Ident("lost"@);
    let max_i = ExprV::Ident("rtt_max"@);
    let wt_i = ExprV::Ident("warning_timeout"@);
    let zero = ExprV::Lit(ValueV::Int(0));
    let cmp1 = ExprV::Cmp(CmpOp::Gt, Box::new(lost_i), Box::new(zero));
    let cmp2 = ExprV::Cmp(CmpOp::Eq, Box::new(lost_i), Box::new(zero));
    let cmp3 = ExprV::Cmp(CmpOp::Gt, Box::new(max_i), Box::new(wt_i));
    let conj = ExprV::And(Box::new(cmp2), Box::new(cmp3));
    let whole = ExprV::Or(Box::new(cmp1), Box::new(conj));

    assert(parse_primary_v(toks, 0) == Ok::<(ExprV, int), ParseError>((lost_i, 1)));
    assert(parse_primary_v(toks, 2) == Ok::<(ExprV, int), ParseError>((zero, 3)));
    assert(parse_cmp_v(toks, 0) == Ok::<(ExprV, int), ParseError>((cmp1, 3)));
    assert(parse_not_v(toks, 0) == Ok::<(ExprV, int), ParseError>((cmp1, 3)));
    assert(parse_and_v(toks, 0) == Ok::<(ExprV, int), ParseError>((cmp1, 3)));

    assert(parse_primary_v(toks, 5) == Ok::<(ExprV, int), ParseError>((lost_i, 6)));
    assert(parse_primary_v(toks, 7) == Ok::<(ExprV, int), ParseError>((zero, 8)));
    assert(parse_cmp_v(toks, 5) == Ok::<(ExprV, int), ParseError>((cmp2, 8)));
    assert(parse_not_v(toks, 5) == Ok::<(ExprV, int), ParseError>((cmp2, 8)));

    assert(parse_primary_v(toks, 9) == Ok::<(ExprV, int), ParseError>((max_i, 10)));
    assert(parse_primary_v(toks, 11) == Ok::<(ExprV, int), ParseError>((wt_i, 12)));
    assert(parse_cmp_v(toks, 9) == Ok::<(ExprV, int), ParseError>((cmp3, 12)));
    assert(parse_not_v(toks, 9) == Ok::<(ExprV, int), ParseError>((cmp3, 12)));
    assert(parse_and_v(toks, 9) == Ok::<(ExprV, int), ParseError>((cmp3, 12)));

    assert(parse_and_v(toks, 5) == Ok::<(ExprV, int), ParseError>((conj, 12)));
    assert(parse_or_v(toks, 5) == Ok::<(ExprV, int), ParseError>((conj, 12)));
    assert(parse_primary_v(toks, 4) == Ok::<(ExprV, int), ParseError>((conj, 13)));
    assert(parse_cmp_v(toks, 4) == Ok::<(ExprV, int), ParseError>((conj, 13)));
    assert(parse_not_v(toks, 4) == Ok::<(ExprV, int), ParseError>((conj, 13)));
    assert(parse_and_v(toks, 4) == Ok::<(ExprV, int), ParseError>((conj, 13)));
    assert(parse_or_v(toks, 4) == Ok::<(ExprV, int), ParseError>((conj, 13)));
    assert(parse_or_v(toks, 0) == Ok::<(ExprV, int), ParseError>((whole, 13)));
    assert(parse_v(toks) == Ok::<ExprV, ParseError>(whole));

    assert(eval_v(lost_i, m) == Ok::<ValueV, EvalError>(ValueV::Int(lost)));
    assert(eval_v(max_i, m) == Ok::<ValueV, EvalError>(ValueV::Int(rtt_max)));
    assert(eval_v(wt_i, m) == Ok::<ValueV, EvalError>(ValueV::Int(wt)));
    assert(eval_v(zero, m) == Ok::<ValueV, EvalError>(ValueV::Int(0)));
    assert(eval_v(cmp1, m) == Ok::<ValueV, EvalError>(ValueV::Bool(lost > 0)));
    assert(eval_v(cmp2, m) == Ok::<ValueV, EvalError>(ValueV::Bool(lost == 0)));
    assert(eval_v(cmp3, m) == Ok::<ValueV, EvalError>(ValueV::Bool(rtt_max > wt)));
    assert(eval_v(conj, m) == Ok::<ValueV, EvalError>(
        ValueV::Bool(lost == 0 && rtt_max > wt),
    ));
    assert(eval_v(whole, m) == Ok::<ValueV, EvalError>(
        ValueV::Bool(lost > 0 || (lost == 0 && rtt_max > wt)),
    ));
}

/// Against the metrics of a run, the default orange rule is true whenever
/// nothing was lost but the greatest round-trip time overran the warning
/// timeout, and more generally means exactly `lost > 0` or `lost == 0` with
/// `rtt_max` over the timeout.
pub proof fn lemma_default_orange_on_metrics(results: Seq<PingResult>, count: int, wt_us: int)
    requires
        0 <= count,
    ensures
        ({
            let lost = sat_i64(lost_of(count, received_count_of(results)));
            let stats = rtt_stats_of(results, wt_us);
            calc_bool_v("lost > 0 or (lost == 0 and rtt_max > warning_timeout)"@, metrics_of(
                results,
                count,
                wt_us,
            )) == (lost > 0 || (lost == 0 && sat_i64(stats.2) > sat_i64(wt_us)))
        }),
{
    lemma_metric_key_facts();
    let m = metrics_of(results, count, wt_us);
    let lost = sat_i64(lost_of(count, received_count_of(results)));
    let stats = rtt_stats_of(results, wt_us);
    assert(m["lost"@] == ValueV::Int(lost));
    assert(m["rtt_max"@] == ValueV::Int(sat_i64(stats.2)));
    assert(m["warning_timeout"@] == ValueV::Int(sat_i64(wt_us)));
    lemma_default_orange_rule(m, lost, sat_i64(stats.2), sat_i64(wt_us));
}

/// The red rule takes priority: whenever it is true, the emitted status is
/// red, whatever the other rules say.
pub proof fn lemma_red_takes_priority(
    results: Seq<PingResult>,
    count: int,
    wt_us: int,
    red: Seq<char>,
    green: Seq<char>,
    blue: Seq<char>,
    orange: Seq<char>,
    yellow: Seq<char>,
)
    requires
        calc_bool_v(red, metrics_of(results, count, wt_us)),
    ensures
        report_of(results, count, wt_us, red, green, blue, orange, yellow).last() == status_line(
            "red"@,
        ),
{
    let rep = report_of(results, count, wt_us, red, green, blue, orange, yellow);
    assert(rep.len() == 8);
}

} // verus!

