//! A small expression language: a tokenizer, a recursive-descent parser with
//! precedence climbing, and an evaluator over a mutable context of variables
//! and functions.

use vstd::prelude::*;

pub mod eval;
pub mod num;
pub mod parser;
pub mod tokenizer;

verus! {

/// One error of the whole pipeline, keeping the failing stage apart.
#[derive(Debug)]
pub enum CalcError {
    Tokenize(tokenizer::TokenizeError),
    Parse(parser::ParseError),
    Eval(eval::EvalError),
}

/// The whole pipeline at the mathematical level: the token stream of the
/// text, its parse tree, and the evaluation of that tree against the
/// context's tables — or the first stage's error, with the context unchanged
/// until evaluation begins. Bindings made by statements before a failing one
/// stay, since evaluation threads the tables through each statement.
pub open spec fn eval_str_rel(
    s: Seq<char>,
    pre: eval::Context,
    post: eval::Context,
    r: Result<num::Number, CalcError>,
) -> bool {
    match tokenizer::spec_tokenize(s, 0) {
        Err(te) => (r matches Err(CalcError::Tokenize(e)) && e == te) && post == pre,
        Ok(ts) => {
            let po = parser::sp_parse(ts, 0);
            match po.result {
                Err(pe) => (r matches Err(CalcError::Parse(e)) && parser::perr_view(e) == pe)
                    && post == pre,
                Ok(av) => {
                    let o = eval::spec_eval(
                        av,
                        pre.vars_map(),
                        eval::funcs_view(pre.funcs_map()),
                        eval::MAX_CALL_DEPTH as nat,
                    );
                    &&& (match (r, o.result) {
                        (Ok(n), Ok(m)) => n == m,
                        (Err(CalcError::Eval(e)), Err(ev)) => eval::err_view(e) == ev,
                        _ => false,
                    })
                    &&& post.vars_map() == o.vars
                    &&& eval::funcs_view(post.funcs_map()) == o.funcs
                },
            }
        },
    }
}

/// Tokenizes, parses and evaluates one whole input against a context.
///
/// An empty input, or one consisting of newlines alone, evaluates to zero.
/// Bindings made by earlier lines of the input stay in the context even when
/// a later line fails.
pub fn eval_str_ctx(s: &str, ctx: &mut eval::Context) -> (r: Result<num::Number, CalcError>)
    requires
        old(ctx).wf(),
    ensures
        final(ctx).wf(),
        s@.len() == 0 ==> (r matches Ok(n) && num::is_zero_of(n.big)),
        (forall|k: int| 0 <= k < s@.len() ==> s@[k] == '\n') ==> (r matches Ok(n)
            && num::is_zero_of(n.big)),
        (r matches Err(e) && !(e matches CalcError::Eval(_))) ==> *final(ctx) == *old(ctx),
        eval_str_rel(s@, *old(ctx), *final(ctx), r),
{
    let ghost all_nl = forall|k: int| 0 <= k < s@.len() ==> s@[k] == '\n';
    let tokens = match tokenizer::tokenize(s) {
        Ok(t) => t,
        Err(e) => {
            proof {
                if all_nl {
                    tokenizer::lemma_tokenize_newlines(s@, 0);
                }
            }
            return Err(CalcError::Tokenize(e));
        },
    };
    proof {
        if all_nl {
            tokenizer::lemma_tokenize_newlines(s@, 0);
            let ts = tokenizer::spec_tokenize(s@, 0)->Ok_0;
            assert(tokenizer::toks_view(tokens) == ts);
            assert forall|k: int| 0 <= k < tokens@.len() implies (#[trigger] tokens@[k])@
                is Newline by {
                assert(tokenizer::toks_view(tokens)[k] == tokens@[k]@);
            }
            assert(parser::all_newlines(tokens@, 0));
        }
    }
    proof {
        assert(tokenizer::toks_view(tokens) =~= parser::tv(tokens@));
    }
    let ast = match parser::parse(tokens.as_slice()) {
        Ok(a) => a,
        Err(e) => {
            return Err(CalcError::Parse(e));
        },
    };
    match eval::evaluate(&ast, ctx) {
        Ok(n) => Ok(n),
        Err(e) => Err(CalcError::Eval(e)),
    }
}

} // verus!
