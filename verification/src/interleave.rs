//! Splitting the data codewords into blocks, computing each block's
//! error-correction codewords and interleaving everything into the final
//! codeword sequence.
use vstd::prelude::*;
use vstd::arithmetic::div_mod::lemma_fundamental_div_mod_converse;
use crate::gf::{reed_solomon_remainder, rs_generator, rs_remainder};
use crate::params::{
    QrCodeEcc, Version, lemma_table_facts, spec_ecc_per_block, spec_num_blocks,
    spec_num_data_codewords, spec_num_raw_codewords, ECC_CODEWORDS_PER_BLOCK,
    NUM_ERROR_CORRECTION_BLOCKS,
};
use crate::qrcode::QrCode;
use crate::tables::QrTables;

verus! {

/// Number of blocks with the shorter data length (the others hold one more
/// data codeword).
pub open spec fn spec_num_short_blocks(v: int, e: int) -> int {
    spec_num_blocks(e, v) - spec_num_raw_codewords(v) % spec_num_blocks(e, v)
}

/// Data length of a short block.
pub open spec fn spec_short_block_len(v: int, e: int) -> int {
    spec_num_raw_codewords(v) / spec_num_blocks(e, v) - spec_ecc_per_block(e, v)
}

/// Offset of block `i` in the data codewords.
pub open spec fn block_start(i: int, numshort: int, shortlen: int) -> int {
    i * shortlen + if i > numshort {
        i - numshort
    } else {
        0int
    }
}

/// Data length of block `i`.
pub open spec fn block_len(i: int, numshort: int, shortlen: int) -> int {
    shortlen + if i >= numshort {
        1int
    } else {
        0int
    }
}

/// The data codewords of block `i` of a version-`v`, level-`e` symbol.
pub open spec fn spec_block(data: Seq<u8>, v: int, e: int, i: int) -> Seq<u8> {
    let ns = spec_num_short_blocks(v, e);
    let sl = spec_short_block_len(v, e);
    data.subrange(block_start(i, ns, sl), block_start(i, ns, sl) + block_len(i, ns, sl))
}

/// The error-correction codewords of block `i`.
pub open spec fn spec_block_ecc(data: Seq<u8>, v: int, e: int, i: int) -> Seq<u8> {
    let ecclen = spec_ecc_per_block(e, v);
    rs_remainder(spec_block(data, v, e, i), rs_generator(ecclen).take(ecclen))
}

/// The block that position `k` of the interleaved sequence belongs to.
pub open spec fn owner(k: int, nb: int, numshort: int, shortlen: int, datalen: int) -> int {
    if k < shortlen * nb {
        k % nb
    } else if k < datalen {
        numshort + (k - shortlen * nb)
    } else {
        (k - datalen) % nb
    }
}

/// The final codeword sequence: first the data codewords of all blocks,
/// taking the j-th codeword of each block in turn (the extra codeword of the
/// long blocks last), then the error-correction codewords in the same way.
pub open spec fn spec_interleaved(data: Seq<u8>, v: int, e: int) -> Seq<u8> {
    let nb = spec_num_blocks(e, v);
    let ns = spec_num_short_blocks(v, e);
    let sl = spec_short_block_len(v, e);
    let datalen = spec_num_data_codewords(v, e);
    Seq::new(
        spec_num_raw_codewords(v) as nat,
        |k: int|
            if k < sl * nb {
                spec_block(data, v, e, k % nb)[k / nb]
            } else if k < datalen {
                spec_block(data, v, e, ns + (k - sl * nb))[sl]
            } else {
                spec_block_ecc(data, v, e, (k - datalen) % nb)[(k - datalen) / nb]
            },
    )
}

/// Arithmetic of the block layout.
pub proof fn lemma_layout(v: int, e: int)
    requires
        1 <= v <= 40,
        0 <= e < 4,
    ensures
        ({
            let nb = spec_num_blocks(e, v);
            let ns = spec_num_short_blocks(v, e);
            let sl = spec_short_block_len(v, e);
            let ecclen = spec_ecc_per_block(e, v);
            let raw = spec_num_raw_codewords(v);
            &&& 1 <= nb <= 81
            &&& 1 <= ns <= nb
            &&& sl >= 1
            &&& 7 <= ecclen <= 30
            &&& raw <= 3706
            &&& block_start(nb, ns, sl) == spec_num_data_codewords(v, e)
            &&& spec_num_data_codewords(v, e) == sl * nb + (nb - ns)
            &&& raw == spec_num_data_codewords(v, e) + ecclen * nb
        }),
{
    lemma_table_facts(e, v);
    let nb = spec_num_blocks(e, v);
    let raw = spec_num_raw_codewords(v);
    let ecclen = spec_ecc_per_block(e, v);
    let q = raw / nb;
    let r = raw % nb;
    assert(raw == nb * q + r && 0 <= r < nb) by (nonlinear_arith)
        requires
            nb >= 1,
            q == raw / nb,
            r == raw % nb,
    ;
    assert(nb * (q - ecclen) + r == raw - ecclen * nb) by (nonlinear_arith)
        requires
            raw == nb * q + r,
    ;
    assert((q - ecclen) * nb == nb * (q - ecclen)) by (nonlinear_arith);
}

/// Position `i + j * nb` belongs to block `i` at index `j`.
proof fn lemma_grid_pos(i: int, j: int, nb: int)
    requires
        0 <= i < nb,
        0 <= j,
    ensures
        (i + j * nb) % nb == i,
        (i + j * nb) / nb == j,
{
    lemma_fundamental_div_mod_converse(i + j * nb, nb, j, i);
}

/// A vector of `n` zero bytes.
pub fn zeroed_vec(n: usize) -> (r: Vec<u8>)
    ensures
        r@ == Seq::new(n as nat, |i: int| 0u8),
{
    let mut r: Vec<u8> = Vec::new();
    let mut i: usize = 0;
    while i < n
        invariant
            i <= n,
            r@ == Seq::new(i as nat, |j: int| 0u8),
        decreases n - i,
    {
        r.push(0);
        i = i + 1;
        assert(r@ =~= Seq::new(i as nat, |j: int| 0u8));
    }
    r
}

impl QrCode {
    /// Splits the data codewords into blocks, appends each block's
    /// Reed–Solomon codewords and interleaves the result.
    #[verifier::rlimit(60)]
    pub fn add_ecc_and_interleave(tables: &QrTables, data: &[u8], ver: Version, ecl: QrCodeEcc) -> (r:
        Vec<u8>)
        requires
            tables.wf(),
            ver.wf(),
            data.len() == spec_num_data_codewords(ver.0 as int, ecl.spec_ordinal()),
        ensures
            r@ == spec_interleaved(data@, ver.0 as int, ecl.spec_ordinal()),
    {
        let ghost v = ver.0 as int;
        let ghost e = ecl.spec_ordinal();
        proof {
            lemma_layout(v, e);
        }
        let numblocks = QrCode::table_get(&NUM_ERROR_CORRECTION_BLOCKS, ver, ecl);
        let blockecclen = QrCode::table_get(&ECC_CODEWORDS_PER_BLOCK, ver, ecl);
        let rawcodewords = QrCode::get_num_raw_data_modules(ver) / 8;
        let numshortblocks = numblocks - rawcodewords % numblocks;
        let shortblockdatalen = rawcodewords / numblocks - blockecclen;
        let ghost nb = numblocks as int;
        let ghost ns = numshortblocks as int;
        let ghost sl = shortblockdatalen as int;
        let ghost datalen = data.len() as int;
        let ghost spec = spec_interleaved(data@, v, e);
        let mut result = zeroed_vec(rawcodewords);
        let gen = &tables.rs_generators[blockecclen];
        let mut divisor: Vec<u8> = Vec::new();
        let mut q: usize = 0;
        while q < blockecclen
            invariant
                q <= blockecclen <= 30,
                gen@ == rs_generator(blockecclen as int),
                divisor@ == rs_generator(blockecclen as int).take(q as int),
            decreases blockecclen - q,
        {
            divisor.push(gen[q]);
            q = q + 1;
            assert(divisor@ =~= rs_generator(blockecclen as int).take(q as int));
        }
        let mut ecc = zeroed_vec(blockecclen);
        let mut dat: &[u8] = data;
        let mut i: usize = 0;
        assert(data@.subrange(0, datalen) =~= data@);
        while i < numblocks
            invariant
                tables.wf(),
                i <= numblocks,
                nb == numblocks,
                ns == numshortblocks,
                sl == shortblockdatalen,
                datalen == data.len(),
                1 <= numshortblocks <= numblocks <= 81,
                shortblockdatalen >= 1,
                7 <= blockecclen <= 30,
                rawcodewords <= 3706,
                rawcodewords == spec_num_raw_codewords(v),
                blockecclen == spec_ecc_per_block(e, v),
                nb == spec_num_blocks(e, v),
                ns == spec_num_short_blocks(v, e),
                sl == spec_short_block_len(v, e),
                datalen == spec_num_data_codewords(v, e),
                datalen == sl * nb + (nb - ns),
                rawcodewords == datalen + blockecclen * nb,
                spec == spec_interleaved(data@, v, e),
                divisor@ == rs_generator(blockecclen as int).take(blockecclen as int),
                ecc.len() == blockecclen,
                result.len() == rawcodewords,
                dat@ == data@.subrange(block_start(i as int, ns, sl), datalen),
                block_start(i as int, ns, sl) <= datalen,
                forall|k: int|
                    0 <= k < rawcodewords && owner(k, nb, ns, sl, datalen) < i ==> result@[k]
                        == spec[k],
            decreases numblocks - i,
        {
            let datlen = shortblockdatalen + if i >= numshortblocks {
                1
            } else {
                0
            };
            let ghost start = block_start(i as int, ns, sl);
            assert((i + 1) * sl == i * sl + sl) by (nonlinear_arith);
            assert(block_start(i + 1, ns, sl) == start + datlen);
            assert(block_start(i + 1, ns, sl) <= block_start(nb, ns, sl)) by (nonlinear_arith)
                requires
                    i + 1 <= nb,
                    sl >= 0,
            ;
            let (blk, rest) = dat.split_at(datlen);
            assert(blk@ == spec_block(data@, v, e, i as int));
            reed_solomon_remainder(&tables.gf, blk, &divisor, &mut ecc);
            let mut k = i;
            let mut j: usize = 0;
            while j < datlen
                invariant
                    i < numblocks,
                    nb == numblocks,
                    ns == numshortblocks,
                    sl == shortblockdatalen,
                    datalen == data.len(),
                    1 <= numshortblocks <= numblocks <= 81,
                    shortblockdatalen >= 1,
                    datlen == shortblockdatalen + if i >= numshortblocks {
                        1int
                    } else {
                        0int
                    },
                    j <= datlen,
                    rawcodewords <= 3706,
                    datalen == sl * nb + (nb - ns),
                    rawcodewords == datalen + blockecclen * nb,
                    result.len() == rawcodewords,
                    blk@ == spec_block(data@, v, e, i as int),
                    blk.len() == datlen,
                    spec == spec_interleaved(data@, v, e),
                    nb == spec_num_blocks(e, v),
                    ns == spec_num_short_blocks(v, e),
                    sl == spec_short_block_len(v, e),
                    datalen == spec_num_data_codewords(v, e),
                    rawcodewords == spec_num_raw_codewords(v),
                    k == if j <= shortblockdatalen {
                        i + j * numblocks
                    } else {
                        i + j * numblocks - numshortblocks
                    },
                    forall|kk: int|
                        0 <= kk < rawcodewords && (owner(kk, nb, ns, sl, datalen) < i || (owner(
                            kk,
                            nb,
                            ns,
                            sl,
                            datalen,
                        ) == i && kk < datalen && (if kk < sl * nb {
                            kk / nb
                        } else {
                            sl
                        }) < j)) ==> result@[kk] == spec[kk],
                decreases datlen - j,
            {
                if j == shortblockdatalen {
                    k = k - numshortblocks;
                }
                proof {
                    if j < shortblockdatalen {
                        lemma_grid_pos(i as int, j as int, nb);
                        assert(i + j * nb < sl * nb) by (nonlinear_arith)
                            requires
                                i < nb,
                                j < sl,
                        ;
                    } else {
                        assert(sl * nb <= k < datalen) by (nonlinear_arith)
                            requires
                                k == i + sl * nb - ns,
                                ns <= i < nb,
                                datalen == sl * nb + (nb - ns),
                        ;
                    }
                }
                let ghost kk0 = k as int;
                proof {
                    if j < shortblockdatalen {
                        assert(kk0 < sl * nb);
                        assert(owner(kk0, nb, ns, sl, datalen) == i);
                        assert(kk0 / nb == j);
                        assert(spec[kk0] == spec_block(data@, v, e, i as int)[j as int]);
                    } else {
                        assert(kk0 >= sl * nb && kk0 < datalen);
                        assert(owner(kk0, nb, ns, sl, datalen) == i);
                        assert(spec[kk0] == spec_block(data@, v, e, i as int)[sl]);
                    }
                }
                let ghost before = result@;
                result.set(k, blk[j]);
                proof {
                    assert forall|kk: int|
                        0 <= kk < rawcodewords && (owner(kk, nb, ns, sl, datalen) < i || (owner(
                            kk,
                            nb,
                            ns,
                            sl,
                            datalen,
                        ) == i && kk < datalen && (if kk < sl * nb {
                            kk / nb
                        } else {
                            sl
                        }) < j + 1)) implies result@[kk] == spec[kk] by {
                        if kk != kk0 {
                            assert(result@[kk] == before[kk]);
                            if owner(kk, nb, ns, sl, datalen) == i && kk < datalen && (if kk < sl
                                * nb {
                                kk / nb
                            } else {
                                sl
                            }) == j {
                                if kk < sl * nb {
                                    assert(kk == i + j * nb) by (nonlinear_arith)
                                        requires
                                            nb >= 1,
                                            kk >= 0,
                                            kk % nb == i,
                                            kk / nb == j,
                                    ;
                                    assert(j < sl) by (nonlinear_arith)
                                        requires
                                            0 <= kk < sl * nb,
                                            kk / nb == j,
                                            nb >= 1,
                                    ;
                                }
                            }
                        }
                    }
                }
                assert(k + numblocks <= 3706 + 81) by (nonlinear_arith)
                    requires
                        k < rawcodewords,
                        rawcodewords <= 3706,
                        numblocks <= 81,
                ;
                k = k + numblocks;
                j = j + 1;
                assert(i + j * nb == i + (j - 1) * nb + nb) by (nonlinear_arith);
            }
            proof {
                assert forall|kk: int|
                    0 <= kk < rawcodewords && owner(kk, nb, ns, sl, datalen) == i && kk < datalen
                    implies (if kk < sl * nb {
                    kk / nb
                } else {
                    sl
                }) < datlen by {
                    if kk < sl * nb {
                        assert(kk / nb < sl) by (nonlinear_arith)
                            requires
                                0 <= kk < sl * nb,
                                nb >= 1,
                        ;
                    }
                }
            }
            let mut k = data.len() + i;
            let mut j: usize = 0;
            while j < blockecclen
                invariant
                    i < numblocks,
                    nb == numblocks,
                    ns == numshortblocks,
                    sl == shortblockdatalen,
                    datalen == data.len(),
                    1 <= numblocks <= 81,
                    j <= blockecclen,
                    rawcodewords <= 3706,
                    rawcodewords == datalen + blockecclen * nb,
                    datalen == sl * nb + (nb - ns),
                    1 <= numshortblocks <= numblocks,
                    result.len() == rawcodewords,
                    ecc.len() == blockecclen,
                    ecc@ == rs_remainder(blk@, divisor@),
                    blk@ == spec_block(data@, v, e, i as int),
                    divisor@ == rs_generator(blockecclen as int).take(blockecclen as int),
                    blockecclen == spec_ecc_per_block(e, v),
                    spec == spec_interleaved(data@, v, e),
                    nb == spec_num_blocks(e, v),
                    ns == spec_num_short_blocks(v, e),
                    sl == spec_short_block_len(v, e),
                    datalen == spec_num_data_codewords(v, e),
                    rawcodewords == spec_num_raw_codewords(v),
                    k == datalen + i + j * numblocks,
                    forall|kk: int|
                        0 <= kk < rawcodewords && (owner(kk, nb, ns, sl, datalen) < i || (owner(
                            kk,
                            nb,
                            ns,
                            sl,
                            datalen,
                        ) == i && (kk < datalen || (kk - datalen) / nb < j))) ==> result@[kk]
                            == spec[kk],
                decreases blockecclen - j,
            {
                proof {
                    lemma_grid_pos(i as int, j as int, nb);
                    assert(i + j * nb < blockecclen * nb) by (nonlinear_arith)
                        requires
                            i < nb,
                            j < blockecclen,
                    ;
                }
                let ghost kk0 = k as int;
                proof {
                    assert(kk0 >= datalen);
                    assert(kk0 - datalen == i + j * nb);
                    assert(owner(kk0, nb, ns, sl, datalen) == i);
                    assert((kk0 - datalen) / nb == j);
                    assert(spec[kk0] == spec_block_ecc(data@, v, e, i as int)[j as int]);
                }
                let ghost before = result@;
                result.set(k, ecc[j]);
                proof {
                    assert forall|kk: int|
                        0 <= kk < rawcodewords && (owner(kk, nb, ns, sl, datalen) < i || (owner(
                            kk,
                            nb,
                            ns,
                            sl,
                            datalen,
                        ) == i && (kk < datalen || (kk - datalen) / nb < j + 1))) implies result@[kk]
                        == spec[kk] by {
                        if kk != kk0 {
                            assert(result@[kk] == before[kk]);
                            if owner(kk, nb, ns, sl, datalen) == i && kk >= datalen && (kk
                                - datalen) / nb == j {
                                assert(kk - datalen == i + j * nb) by (nonlinear_arith)
                                    requires
                                        nb >= 1,
                                        kk - datalen >= 0,
                                        (kk - datalen) % nb == i,
                                        (kk - datalen) / nb == j,
                                ;
                            }
                        }
                    }
                }
                k = k + numblocks;
                j = j + 1;
                assert(i + j * nb == i + (j - 1) * nb + nb) by (nonlinear_arith);
            }
            proof {
                assert forall|kk: int|
                    0 <= kk < rawcodewords && owner(kk, nb, ns, sl, datalen) < i + 1 implies result@[kk]
                    == spec[kk] by {
                    if owner(kk, nb, ns, sl, datalen) == i && kk >= datalen {
                        assert((kk - datalen) / nb < blockecclen) by (nonlinear_arith)
                            requires
                                0 <= kk - datalen < blockecclen * nb,
                                nb >= 1,
                        ;
                    }
                    if owner(kk, nb, ns, sl, datalen) == i && kk < sl * nb {
                        assert(kk / nb < sl) by (nonlinear_arith)
                            requires
                                0 <= kk < sl * nb,
                                nb >= 1,
                        ;
                    }
                }
            }
            dat = rest;
            i = i + 1;
        }
        proof {
            assert forall|kk: int| 0 <= kk < rawcodewords implies result@[kk] == spec[kk] by {
                if kk < sl * nb {
                    assert(kk % nb < nb) by (nonlinear_arith)
                        requires
                            nb >= 1,
                    ;
                } else if kk >= datalen {
                    assert((kk - datalen) % nb < nb) by (nonlinear_arith)
                        requires
                            nb >= 1,
                    ;
                }
            }
            assert(result@ =~= spec);
        }
        result
    }
}

} // verus!
