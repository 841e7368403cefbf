//! Therapy price index: the per-unit prices used to turn therapy counts
//! into income, built fresh from the therapy rate table on every
//! aggregation call.

use vstd::prelude::*;
use crate::model::{Therapy, TherapyKind};

verus! {

/// The per-unit price the rate table gives a therapy name: the `income`
/// of the last row carrying that name, or zero when no row does. A type
/// missing from the table prices at zero by design, never as an error.
pub open spec fn price_of(rates: Seq<Therapy>, name: Seq<char>) -> int
    decreases rates.len(),
{
    if rates.len() == 0 {
        0
    } else if rates.last().therapy_name@ == name {
        rates.last().income as int
    } else {
        price_of(rates.drop_last(), name)
    }
}

/// The prices of the six tracked therapy types, one lookup each.
pub struct PriceIndex {
    pub kg: i64,
    pub mt: i64,
    pub mld: i64,
    pub fango: i64,
    pub ultraschal: i64,
    pub hb: i64,
}

impl PriceIndex {
    /// Each field holds exactly what `price_of` gives its therapy name.
    pub open spec fn matches(self, rates: Seq<Therapy>) -> bool {
        &&& self.kg as int == price_of(rates, "kg"@)
        &&& self.mt as int == price_of(rates, "mt"@)
        &&& self.mld as int == price_of(rates, "mld"@)
        &&& self.fango as int == price_of(rates, "fango"@)
        &&& self.ultraschal as int == price_of(rates, "ultraschal"@)
        &&& self.hb as int == price_of(rates, "hb"@)
    }

    /// The field that prices one therapy kind.
    pub open spec fn kind_price(self, k: TherapyKind) -> int {
        match k {
            TherapyKind::Kg => self.kg as int,
            TherapyKind::Mt => self.mt as int,
            TherapyKind::Mld => self.mld as int,
            TherapyKind::Fango => self.fango as int,
            TherapyKind::Ultraschal => self.ultraschal as int,
            TherapyKind::Hb => self.hb as int,
        }
    }

    /// Builds the index from all rate rows. A later row with the same
    /// name overwrites an earlier one.
    pub fn build(rates: &Vec<Therapy>) -> (px: PriceIndex)
        ensures
            px.matches(rates@),
    {
        let name_kg: String = String::from_str("kg");
        let name_mt: String = String::from_str("mt");
        let name_mld: String = String::from_str("mld");
        let name_fango: String = String::from_str("fango");
        let name_ultraschal: String = String::from_str("ultraschal");
        let name_hb: String = String::from_str("hb");
        let mut px = PriceIndex { kg: 0, mt: 0, mld: 0, fango: 0, ultraschal: 0, hb: 0 };
        proof {
            assert(rates@.subrange(0, 0) =~= Seq::<Therapy>::empty());
        }
        let mut i: usize = 0;
        while i < rates.len()
            invariant
                i <= rates@.len(),
                name_kg@ == "kg"@,
                name_mt@ == "mt"@,
                name_mld@ == "mld"@,
                name_fango@ == "fango"@,
                name_ultraschal@ == "ultraschal"@,
                name_hb@ == "hb"@,
                px.kg as int == price_of(rates@.subrange(0, i as int), "kg"@),
                px.mt as int == price_of(rates@.subrange(0, i as int), "mt"@),
                px.mld as int == price_of(rates@.subrange(0, i as int), "mld"@),
                px.fango as int == price_of(rates@.subrange(0, i as int), "fango"@),
                px.ultraschal as int == price_of(rates@.subrange(0, i as int), "ultraschal"@),
                px.hb as int == price_of(rates@.subrange(0, i as int), "hb"@),
            decreases rates@.len() - i,
        {
            let t = &rates[i];
            proof {
                let p1 = rates@.subrange(0, i as int + 1);
                assert(p1.drop_last() =~= rates@.subrange(0, i as int));
                assert(p1.last() == rates@[i as int]);
            }
            if t.therapy_name == name_kg {
                px.kg = t.income;
            }
            if t.therapy_name == name_mt {
                px.mt = t.income;
            }
            if t.therapy_name == name_mld {
                px.mld = t.income;
            }
            if t.therapy_name == name_fango {
                px.fango = t.income;
            }
            if t.therapy_name == name_ultraschal {
                px.ultraschal = t.income;
            }
            if t.therapy_name == name_hb {
                px.hb = t.income;
            }
            i = i + 1;
        }
        proof {
            assert(rates@.subrange(0, rates@.len() as int) =~= rates@);
        }
        px
    }
}

} // verus!
