//! The lookup tables the encoder computes once per call: GF(2^8)
//! exponentials and logarithms, Reed–Solomon generators and alphanumeric values.
use vstd::prelude::*;
use crate::gf::{build_gf_tables, build_rs_generators, gf_tables_wf, rs_generator};
use crate::segment::{build_alphanumeric_values, is_alnum_table};

verus! {

/// The tables the encoder reads.
pub struct QrTables {
    /// Exponentials and logarithms of GF(2^8).
    pub gf: ([u8; 512], [u8; 256]),
    /// Reed–Solomon generator polynomials of degrees 0..=30.
    pub rs_generators: [[u8; 30]; 31],
    /// Alphanumeric values of the bytes 0..128.
    pub alphanumeric: [i8; 128],
}

impl QrTables {
    pub open spec fn wf(&self) -> bool {
        &&& gf_tables_wf(self.gf.0@, self.gf.1@)
        &&& forall|d: int| 0 <= d <= 30 ==> (#[trigger] self.rs_generators@[d])@ == rs_generator(d)
        &&& is_alnum_table(self.alphanumeric@)
    }

    pub fn build() -> (r: Self)
        ensures
            r.wf(),
    {
        QrTables {
            gf: build_gf_tables(),
            rs_generators: build_rs_generators(),
            alphanumeric: build_alphanumeric_values(),
        }
    }
}

} // verus!
