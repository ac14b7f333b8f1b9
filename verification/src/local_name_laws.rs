//! How the names that the local servers answer for are spelled.

use vstd::prelude::*;

use crate::local_names::{
    com_zone, example_com, example_zone, hostmaster_example_com, ns_example_com, www_example,
    www_example_com,
};
use crate::name::label_of;

verus! {

/// The names in bytes, label by label.
pub proof fn law_local_names_in_bytes()
    ensures
        www_example_com() == seq![www(), example(), com()],
        example_com() == seq![example(), com()],
        com_zone() == seq![com()],
        example_zone() == seq![example()],
        www_example() == seq![www(), example()],
        ns_example_com() == seq![seq![0x6eu8, 0x73], example(), com()],
        hostmaster_example_com() == seq![
            seq![0x68u8, 0x6f, 0x73, 0x74, 0x6d, 0x61, 0x73, 0x74, 0x65, 0x72],
            example(),
            com(),
        ],
{
    reveal_strlit("www");
    reveal_strlit("ns");
    reveal_strlit("hostmaster");
    reveal_strlit("example");
    reveal_strlit("com");
    assert(label_of("www"@) =~= www());
    assert(label_of("example"@) =~= example());
    assert(label_of("com"@) =~= com());
    assert(label_of("ns"@) =~= seq![0x6eu8, 0x73]);
    assert(label_of("hostmaster"@) =~= seq![
        0x68u8,
        0x6f,
        0x73,
        0x74,
        0x6d,
        0x61,
        0x73,
        0x74,
        0x65,
        0x72,
    ]);
}

/// The bytes of `www`.
pub open spec fn www() -> Seq<u8> {
    seq![0x77u8, 0x77, 0x77]
}

/// The bytes of `example`.
pub open spec fn example() -> Seq<u8> {
    seq![0x65u8, 0x78, 0x61, 0x6d, 0x70, 0x6c, 0x65]
}

/// The bytes of `com`.
pub open spec fn com() -> Seq<u8> {
    seq![0x63u8, 0x6f, 0x6d]
}

} // verus!
