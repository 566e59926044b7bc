use vstd::prelude::*;
use vstd::arithmetic::div_mod::{lemma_fundamental_div_mod, lemma_fundamental_div_mod_converse_mod};

verus! {

/// Floor-style modulo: for `b > 0` the result always lies in `[0, b)`,
/// whatever the sign of `a`, so negative coordinates wrap consistently.
pub fn true_mod(a: i32, b: i32) -> (r: i32)
    requires
        0 < b <= 0x4000_0000,
    ensures
        r == (a as int) % (b as int),
{
    let t = a % b;
    proof {
        let ai = a as int;
        let bi = b as int;
        let ti = t as int;
        if a >= 0 {
            assert(ti == ai % bi);
            assert(0 <= ti < bi) by {
                vstd::arithmetic::div_mod::lemma_mod_pos_bound(ai, bi);
            }
            lemma_fundamental_div_mod_converse_mod(ti + bi, bi, 1, ti);
        } else {
            assert(ti == -((-ai) % bi));
            let mi = (-ai) % bi;
            lemma_fundamental_div_mod(-ai, bi);
            let qi = (-ai) / bi;
            assert(0 <= mi < bi) by {
                vstd::arithmetic::div_mod::lemma_mod_pos_bound(-ai, bi);
            }
            if mi == 0 {
                assert(ai == (-qi) * bi + 0) by (nonlinear_arith)
                    requires ai == -(bi * qi + mi), mi == 0,
                ;
                lemma_fundamental_div_mod_converse_mod(ai, bi, -qi, 0);
                lemma_fundamental_div_mod_converse_mod(ti + bi, bi, 1, 0);
            } else {
                assert(ai == (-qi - 1) * bi + (bi - mi)) by (nonlinear_arith)
                    requires ai == -(bi * qi + mi),
                ;
                lemma_fundamental_div_mod_converse_mod(ai, bi, -qi - 1, bi - mi);
                lemma_fundamental_div_mod_converse_mod(ti + bi, bi, 0, bi - mi);
            }
        }
    }
    (t + b) % b
}

} // verus!
