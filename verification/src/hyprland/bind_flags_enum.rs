//! The bind flags as a list of their own, for choosing them one by one.
use vstd::prelude::*;

verus! {

#[derive(Debug, Clone, Copy, PartialEq, Eq)]
pub enum BindFlagsEnum {
    Locked,
    Release,
    Click,
    Drag,
    LongPress,
    Repeat,
    NonConsuming,
    Mouse,
    Transparent,
    IgnoreMods,
    Separate,
    HasDescription,
    Bypass,
}

impl BindFlagsEnum {
    /// Every flag, in the order in which the flag letters are written.
    pub open spec fn spec_all() -> Seq<BindFlagsEnum> {
        seq![
            BindFlagsEnum::Locked,
            BindFlagsEnum::Release,
            BindFlagsEnum::Click,
            BindFlagsEnum::Drag,
            BindFlagsEnum::LongPress,
            BindFlagsEnum::Repeat,
            BindFlagsEnum::NonConsuming,
            BindFlagsEnum::Mouse,
            BindFlagsEnum::Transparent,
            BindFlagsEnum::IgnoreMods,
            BindFlagsEnum::Separate,
            BindFlagsEnum::HasDescription,
            BindFlagsEnum::Bypass,
        ]
    }

    pub fn get_all() -> (r: [BindFlagsEnum; 13])
        ensures
            r@ == Self::spec_all(),
    {
        let r = [
            BindFlagsEnum::Locked,
            BindFlagsEnum::Release,
            BindFlagsEnum::Click,
            BindFlagsEnum::Drag,
            BindFlagsEnum::LongPress,
            BindFlagsEnum::Repeat,
            BindFlagsEnum::NonConsuming,
            BindFlagsEnum::Mouse,
            BindFlagsEnum::Transparent,
            BindFlagsEnum::IgnoreMods,
            BindFlagsEnum::Separate,
            BindFlagsEnum::HasDescription,
            BindFlagsEnum::Bypass,
        ];
        proof {
            assert(r@ =~= Self::spec_all());
        }
        r
    }

    /// The list gives the flags in the order of their letters `l r c g o e n m
    /// t i s d p`: locked, release, click, drag, long press, repeat,
    /// non-consuming, mouse, transparent, ignore mods, separate, has
    /// description, bypass.
    pub proof fn lemma_all_order()
        ensures
            Self::spec_all().len() == 13,
            Self::spec_all()[0] == BindFlagsEnum::Locked,
            Self::spec_all()[1] == BindFlagsEnum::Release,
            Self::spec_all()[2] == BindFlagsEnum::Click,
            Self::spec_all()[3] == BindFlagsEnum::Drag,
            Self::spec_all()[4] == BindFlagsEnum::LongPress,
            Self::spec_all()[5] == BindFlagsEnum::Repeat,
            Self::spec_all()[6] == BindFlagsEnum::NonConsuming,
            Self::spec_all()[7] == BindFlagsEnum::Mouse,
            Self::spec_all()[8] == BindFlagsEnum::Transparent,
            Self::spec_all()[9] == BindFlagsEnum::IgnoreMods,
            Self::spec_all()[10] == BindFlagsEnum::Separate,
            Self::spec_all()[11] == BindFlagsEnum::HasDescription,
            Self::spec_all()[12] == BindFlagsEnum::Bypass,
    {
    }


    /// The list holds every flag, and no flag twice.
    pub proof fn lemma_all_once(x: BindFlagsEnum)
        ensures
            Self::spec_all().contains(x),
            forall|i: int, j: int|
                0 <= i < j < 13 ==> Self::spec_all()[i] != Self::spec_all()[j],
    {
        let a = Self::spec_all();
        match x {
            BindFlagsEnum::Locked => assert(a[0] == x),
            BindFlagsEnum::Release => assert(a[1] == x),
            BindFlagsEnum::Click => assert(a[2] == x),
            BindFlagsEnum::Drag => assert(a[3] == x),
            BindFlagsEnum::LongPress => assert(a[4] == x),
            BindFlagsEnum::Repeat => assert(a[5] == x),
            BindFlagsEnum::NonConsuming => assert(a[6] == x),
            BindFlagsEnum::Mouse => assert(a[7] == x),
            BindFlagsEnum::Transparent => assert(a[8] == x),
            BindFlagsEnum::IgnoreMods => assert(a[9] == x),
            BindFlagsEnum::Separate => assert(a[10] == x),
            BindFlagsEnum::HasDescription => assert(a[11] == x),
            BindFlagsEnum::Bypass => assert(a[12] == x),
        }
    }
}

} // verus!
