//! Arithmetic in GF(2^8) modulo x^8 + x^4 + x^3 + x^2 + 1 and the
//! Reed–Solomon error-correction codes built on it.
use vstd::prelude::*;

verus! {

/// `z` times x (the element 0x02): a shift left, reduced by 0x11D.
pub open spec fn gf_double(z: u8) -> u8 {
    (z << 1u8) ^ (((z >> 7u8) * 0x1Du8) as u8)
}

/// One step of the shift-and-add multiplication of `x` by `y`: double the
/// accumulator, then add `x` when bit `i` of `y` is set.
pub open spec fn gf_mul_step(z: u8, x: u8, y: u8, i: u8) -> u8 {
    gf_double(z) ^ ((((y >> i) & 1u8) * x) as u8)
}

/// The product of `x` and `y` in GF(2^8) modulo 0x11D, by shift-and-add over
/// the bits of `y` from the most significant down.
pub open spec fn gf_mul(x: u8, y: u8) -> u8 {
    let z7 = gf_mul_step(0u8, x, y, 7u8);
    let z6 = gf_mul_step(z7, x, y, 6u8);
    let z5 = gf_mul_step(z6, x, y, 5u8);
    let z4 = gf_mul_step(z5, x, y, 4u8);
    let z3 = gf_mul_step(z4, x, y, 3u8);
    let z2 = gf_mul_step(z3, x, y, 2u8);
    let z1 = gf_mul_step(z2, x, y, 1u8);
    gf_mul_step(z1, x, y, 0u8)
}

pub proof fn lemma_gf_mul_one(x: u8)
    ensures
        gf_mul(x, 1) == x,
        gf_mul(1, x) == x,
{
    assert(gf_mul(x, 1) == x) by (bit_vector);
    assert(gf_mul(1, x) == x) by (bit_vector);
}

pub proof fn lemma_gf_mul_zero(x: u8)
    ensures
        gf_mul(x, 0) == 0,
        gf_mul(0, x) == 0,
{
    assert(gf_mul(x, 0) == 0) by (bit_vector);
    assert(gf_mul(0, x) == 0) by (bit_vector);
}

/// Multiplication in GF(2^8) is commutative.
pub proof fn lemma_gf_mul_commutative(x: u8, y: u8)
    ensures
        gf_mul(x, y) == gf_mul(y, x),
{
    assert(gf_mul(x, y) == gf_mul(y, x)) by (bit_vector);
}

/// Multiplication distributes over addition (exclusive or) in GF(2^8).
#[verifier::rlimit(100)]
pub proof fn lemma_gf_mul_distributive(x: u8, y: u8, z: u8)
    ensures
        gf_mul(x, y ^ z) == gf_mul(x, y) ^ gf_mul(x, z),
{
    assert(gf_mul(x, y ^ z) == gf_mul(x, y) ^ gf_mul(x, z)) by (bit_vector);
}

pub proof fn lemma_gf_mul_two(x: u8)
    ensures
        gf_mul(x, 2) == gf_double(x),
{
    assert(gf_mul(x, 2) == gf_double(x)) by (bit_vector);
}

pub proof fn lemma_gf_double_mul(x: u8, y: u8)
    ensures
        gf_double(gf_mul(x, y)) == gf_mul(x, gf_double(y)),
{
    assert(gf_double(gf_mul(x, y)) == gf_mul(x, gf_double(y))) by (bit_vector);
}

/// `gf_double` written with arithmetic only (no bit operations), so that the
/// solver can evaluate it on constants.
pub open spec fn gf_double_arith(z: int) -> int {
    if z < 128 {
        2 * z
    } else {
        let y = 2 * z - 256;
        y + 29 - 2 * (y % 2 + 4 * ((y / 4) % 2) + 8 * ((y / 8) % 2) + 16 * ((y / 16) % 2))
    }
}

proof fn lemma_gf_double_arith(z: u8)
    ensures
        gf_double(z) as int == gf_double_arith(z as int),
{
    assert(gf_double(z) as int == gf_double_arith(z as int)) by (bit_vector);
}

/// The powers of the generator x (0x02): `gf_exp(n)` is x^n.
pub open spec fn gf_exp(n: nat) -> u8
    decreases n,
{
    if n == 0 {
        1
    } else {
        gf_double(gf_exp((n - 1) as nat))
    }
}

/// A discrete logarithm of every nonzero element: `gf_exp(gf_log_of(v)) == v`.
#[verifier::opaque]
pub open spec fn gf_log_of(v: int) -> nat {
    if v == 1 {
        0
    } else if v == 2 {
        1
    } else if v == 3 {
        25
    } else if v == 4 {
        2
    } else if v == 5 {
        50
    } else if v == 6 {
        26
    } else if v == 7 {
        198
    } else if v == 8 {
        3
    } else if v == 9 {
        223
    } else if v == 10 {
        51
    } else if v == 11 {
        238
    } else if v == 12 {
        27
    } else if v == 13 {
        104
    } else if v == 14 {
        199
    } else if v == 15 {
        75
    } else if v == 16 {
        4
    } else if v == 17 {
        100
    } else if v == 18 {
        224
    } else if v == 19 {
        14
    } else if v == 20 {
        52
    } else if v == 21 {
        141
    } else if v == 22 {
        239
    } else if v == 23 {
        129
    } else if v == 24 {
        28
    } else if v == 25 {
        193
    } else if v == 26 {
        105
    } else if v == 27 {
        248
    } else if v == 28 {
        200
    } else if v == 29 {
        8
    } else if v == 30 {
        76
    } else if v == 31 {
        113
    } else if v == 32 {
        5
    } else if v == 33 {
        138
    } else if v == 34 {
        101
    } else if v == 35 {
        47
    } else if v == 36 {
        225
    } else if v == 37 {
        36
    } else if v == 38 {
        15
    } else if v == 39 {
        33
    } else if v == 40 {
        53
    } else if v == 41 {
        147
    } else if v == 42 {
        142
    } else if v == 43 {
        218
    } else if v == 44 {
        240
    } else if v == 45 {
        18
    } else if v == 46 {
        130
    } else if v == 47 {
        69
    } else if v == 48 {
        29
    } else if v == 49 {
        181
    } else if v == 50 {
        194
    } else if v == 51 {
        125
    } else if v == 52 {
        106
    } else if v == 53 {
        39
    } else if v == 54 {
        249
    } else if v == 55 {
        185
    } else if v == 56 {
        201
    } else if v == 57 {
        154
    } else if v == 58 {
        9
    } else if v == 59 {
        120
    } else if v == 60 {
        77
    } else if v == 61 {
        228
    } else if v == 62 {
        114
    } else if v == 63 {
        166
    } else if v == 64 {
        6
    } else if v == 65 {
        191
    } else if v == 66 {
        139
    } else if v == 67 {
        98
    } else if v == 68 {
        102
    } else if v == 69 {
        221
    } else if v == 70 {
        48
    } else if v == 71 {
        253
    } else if v == 72 {
        226
    } else if v == 73 {
        152
    } else if v == 74 {
        37
    } else if v == 75 {
        179
    } else if v == 76 {
        16
    } else if v == 77 {
        145
    } else if v == 78 {
        34
    } else if v == 79 {
        136
    } else if v == 80 {
        54
    } else if v == 81 {
        208
    } else if v == 82 {
        148
    } else if v == 83 {
        206
    } else if v == 84 {
        143
    } else if v == 85 {
        150
    } else if v == 86 {
        219
    } else if v == 87 {
        189
    } else if v == 88 {
        241
    } else if v == 89 {
        210
    } else if v == 90 {
        19
    } else if v == 91 {
        92
    } else if v == 92 {
        131
    } else if v == 93 {
        56
    } else if v == 94 {
        70
    } else if v == 95 {
        64
    } else if v == 96 {
        30
    } else if v == 97 {
        66
    } else if v == 98 {
        182
    } else if v == 99 {
        163
    } else if v == 100 {
        195
    } else if v == 101 {
        72
    } else if v == 102 {
        126
    } else if v == 103 {
        110
    } else if v == 104 {
        107
    } else if v == 105 {
        58
    } else if v == 106 {
        40
    } else if v == 107 {
        84
    } else if v == 108 {
        250
    } else if v == 109 {
        133
    } else if v == 110 {
        186
    } else if v == 111 {
        61
    } else if v == 112 {
        202
    } else if v == 113 {
        94
    } else if v == 114 {
        155
    } else if v == 115 {
        159
    } else if v == 116 {
        10
    } else if v == 117 {
        21
    } else if v == 118 {
        121
    } else if v == 119 {
        43
    } else if v == 120 {
        78
    } else if v == 121 {
        212
    } else if v == 122 {
        229
    } else if v == 123 {
        172
    } else if v == 124 {
        115
    } else if v == 125 {
        243
    } else if v == 126 {
        167
    } else if v == 127 {
        87
    } else if v == 128 {
        7
    } else if v == 129 {
        112
    } else if v == 130 {
        192
    } else if v == 131 {
        247
    } else if v == 132 {
        140
    } else if v == 133 {
        128
    } else if v == 134 {
        99
    } else if v == 135 {
        13
    } else if v == 136 {
        103
    } else if v == 137 {
        74
    } else if v == 138 {
        222
    } else if v == 139 {
        237
    } else if v == 140 {
        49
    } else if v == 141 {
        197
    } else if v == 142 {
        254
    } else if v == 143 {
        24
    } else if v == 144 {
        227
    } else if v == 145 {
        165
    } else if v == 146 {
        153
    } else if v == 147 {
        119
    } else if v == 148 {
        38
    } else if v == 149 {
        184
    } else if v == 150 {
        180
    } else if v == 151 {
        124
    } else if v == 152 {
        17
    } else if v == 153 {
        68
    } else if v == 154 {
        146
    } else if v == 155 {
        217
    } else if v == 156 {
        35
    } else if v == 157 {
        32
    } else if v == 158 {
        137
    } else if v == 159 {
        46
    } else if v == 160 {
        55
    } else if v == 161 {
        63
    } else if v == 162 {
        209
    } else if v == 163 {
        91
    } else if v == 164 {
        149
    } else if v == 165 {
        188
    } else if v == 166 {
        207
    } else if v == 167 {
        205
    } else if v == 168 {
        144
    } else if v == 169 {
        135
    } else if v == 170 {
        151
    } else if v == 171 {
        178
    } else if v == 172 {
        220
    } else if v == 173 {
        252
    } else if v == 174 {
        190
    } else if v == 175 {
        97
    } else if v == 176 {
        242
    } else if v == 177 {
        86
    } else if v == 178 {
        211
    } else if v == 179 {
        171
    } else if v == 180 {
        20
    } else if v == 181 {
        42
    } else if v == 182 {
        93
    } else if v == 183 {
        158
    } else if v == 184 {
        132
    } else if v == 185 {
        60
    } else if v == 186 {
        57
    } else if v == 187 {
        83
    } else if v == 188 {
        71
    } else if v == 189 {
        109
    } else if v == 190 {
        65
    } else if v == 191 {
        162
    } else if v == 192 {
        31
    } else if v == 193 {
        45
    } else if v == 194 {
        67
    } else if v == 195 {
        216
    } else if v == 196 {
        183
    } else if v == 197 {
        123
    } else if v == 198 {
        164
    } else if v == 199 {
        118
    } else if v == 200 {
        196
    } else if v == 201 {
        23
    } else if v == 202 {
        73
    } else if v == 203 {
        236
    } else if v == 204 {
        127
    } else if v == 205 {
        12
    } else if v == 206 {
        111
    } else if v == 207 {
        246
    } else if v == 208 {
        108
    } else if v == 209 {
        161
    } else if v == 210 {
        59
    } else if v == 211 {
        82
    } else if v == 212 {
        41
    } else if v == 213 {
        157
    } else if v == 214 {
        85
    } else if v == 215 {
        170
    } else if v == 216 {
        251
    } else if v == 217 {
        96
    } else if v == 218 {
        134
    } else if v == 219 {
        177
    } else if v == 220 {
        187
    } else if v == 221 {
        204
    } else if v == 222 {
        62
    } else if v == 223 {
        90
    } else if v == 224 {
        203
    } else if v == 225 {
        89
    } else if v == 226 {
        95
    } else if v == 227 {
        176
    } else if v == 228 {
        156
    } else if v == 229 {
        169
    } else if v == 230 {
        160
    } else if v == 231 {
        81
    } else if v == 232 {
        11
    } else if v == 233 {
        245
    } else if v == 234 {
        22
    } else if v == 235 {
        235
    } else if v == 236 {
        122
    } else if v == 237 {
        117
    } else if v == 238 {
        44
    } else if v == 239 {
        215
    } else if v == 240 {
        79
    } else if v == 241 {
        174
    } else if v == 242 {
        213
    } else if v == 243 {
        233
    } else if v == 244 {
        230
    } else if v == 245 {
        231
    } else if v == 246 {
        173
    } else if v == 247 {
        232
    } else if v == 248 {
        116
    } else if v == 249 {
        214
    } else if v == 250 {
        244
    } else if v == 251 {
        234
    } else if v == 252 {
        168
    } else if v == 253 {
        80
    } else if v == 254 {
        88
    } else if v == 255 {
        175
    } else {
        0
    }
}

proof fn lemma_gf_exp_values_0()
    ensures
        gf_exp(1) == 2,
        gf_exp(2) == 4,
        gf_exp(3) == 8,
        gf_exp(4) == 16,
        gf_exp(5) == 32,
        gf_exp(6) == 64,
        gf_exp(7) == 128,
        gf_exp(8) == 29,
        gf_exp(9) == 58,
        gf_exp(10) == 116,
        gf_exp(11) == 232,
        gf_exp(12) == 205,
        gf_exp(13) == 135,
        gf_exp(14) == 19,
        gf_exp(15) == 38,
        gf_exp(16) == 76,
        gf_exp(17) == 152,
        gf_exp(18) == 45,
        gf_exp(19) == 90,
        gf_exp(20) == 180,
        gf_exp(21) == 117,
        gf_exp(22) == 234,
        gf_exp(23) == 201,
        gf_exp(24) == 143,
        gf_exp(25) == 3,
        gf_exp(26) == 6,
        gf_exp(27) == 12,
        gf_exp(28) == 24,
        gf_exp(29) == 48,
        gf_exp(30) == 96,
        gf_exp(31) == 192,
        gf_exp(32) == 157,
{
    assert(gf_exp(0) == 1);
    lemma_gf_double_arith(1u8);
    assert(gf_exp(1) == 2);
    lemma_gf_double_arith(2u8);
    assert(gf_exp(2) == 4);
    lemma_gf_double_arith(4u8);
    assert(gf_exp(3) == 8);
    lemma_gf_double_arith(8u8);
    assert(gf_exp(4) == 16);
    lemma_gf_double_arith(16u8);
    assert(gf_exp(5) == 32);
    lemma_gf_double_arith(32u8);
    assert(gf_exp(6) == 64);
    lemma_gf_double_arith(64u8);
    assert(gf_exp(7) == 128);
    lemma_gf_double_arith(128u8);
    assert(gf_exp(8) == 29);
    lemma_gf_double_arith(29u8);
    assert(gf_exp(9) == 58);
    lemma_gf_double_arith(58u8);
    assert(gf_exp(10) == 116);
    lemma_gf_double_arith(116u8);
    assert(gf_exp(11) == 232);
    lemma_gf_double_arith(232u8);
    assert(gf_exp(12) == 205);
    lemma_gf_double_arith(205u8);
    assert(gf_exp(13) == 135);
    lemma_gf_double_arith(135u8);
    assert(gf_exp(14) == 19);
    lemma_gf_double_arith(19u8);
    assert(gf_exp(15) == 38);
    lemma_gf_double_arith(38u8);
    assert(gf_exp(16) == 76);
    lemma_gf_double_arith(76u8);
    assert(gf_exp(17) == 152);
    lemma_gf_double_arith(152u8);
    assert(gf_exp(18) == 45);
    lemma_gf_double_arith(45u8);
    assert(gf_exp(19) == 90);
    lemma_gf_double_arith(90u8);
    assert(gf_exp(20) == 180);
    lemma_gf_double_arith(180u8);
    assert(gf_exp(21) == 117);
    lemma_gf_double_arith(117u8);
    assert(gf_exp(22) == 234);
    lemma_gf_double_arith(234u8);
    assert(gf_exp(23) == 201);
    lemma_gf_double_arith(201u8);
    assert(gf_exp(24) == 143);
    lemma_gf_double_arith(143u8);
    assert(gf_exp(25) == 3);
    lemma_gf_double_arith(3u8);
    assert(gf_exp(26) == 6);
    lemma_gf_double_arith(6u8);
    assert(gf_exp(27) == 12);
    lemma_gf_double_arith(12u8);
    assert(gf_exp(28) == 24);
    lemma_gf_double_arith(24u8);
    assert(gf_exp(29) == 48);
    lemma_gf_double_arith(48u8);
    assert(gf_exp(30) == 96);
    lemma_gf_double_arith(96u8);
    assert(gf_exp(31) == 192);
    lemma_gf_double_arith(192u8);
    assert(gf_exp(32) == 157);
}

proof fn lemma_gf_exp_values_1()
    requires
        gf_exp(32) == 157,
    ensures
        gf_exp(33) == 39,
        gf_exp(34) == 78,
        gf_exp(35) == 156,
        gf_exp(36) == 37,
        gf_exp(37) == 74,
        gf_exp(38) == 148,
        gf_exp(39) == 53,
        gf_exp(40) == 106,
        gf_exp(41) == 212,
        gf_exp(42) == 181,
        gf_exp(43) == 119,
        gf_exp(44) == 238,
        gf_exp(45) == 193,
        gf_exp(46) == 159,
        gf_exp(47) == 35,
        gf_exp(48) == 70,
        gf_exp(49) == 140,
        gf_exp(50) == 5,
        gf_exp(51) == 10,
        gf_exp(52) == 20,
        gf_exp(53) == 40,
        gf_exp(54) == 80,
        gf_exp(55) == 160,
        gf_exp(56) == 93,
        gf_exp(57) == 186,
        gf_exp(58) == 105,
        gf_exp(59) == 210,
        gf_exp(60) == 185,
        gf_exp(61) == 111,
        gf_exp(62) == 222,
        gf_exp(63) == 161,
        gf_exp(64) == 95,
{
    lemma_gf_double_arith(157u8);
    assert(gf_exp(33) == 39);
    lemma_gf_double_arith(39u8);
    assert(gf_exp(34) == 78);
    lemma_gf_double_arith(78u8);
    assert(gf_exp(35) == 156);
    lemma_gf_double_arith(156u8);
    assert(gf_exp(36) == 37);
    lemma_gf_double_arith(37u8);
    assert(gf_exp(37) == 74);
    lemma_gf_double_arith(74u8);
    assert(gf_exp(38) == 148);
    lemma_gf_double_arith(148u8);
    assert(gf_exp(39) == 53);
    lemma_gf_double_arith(53u8);
    assert(gf_exp(40) == 106);
    lemma_gf_double_arith(106u8);
    assert(gf_exp(41) == 212);
    lemma_gf_double_arith(212u8);
    assert(gf_exp(42) == 181);
    lemma_gf_double_arith(181u8);
    assert(gf_exp(43) == 119);
    lemma_gf_double_arith(119u8);
    assert(gf_exp(44) == 238);
    lemma_gf_double_arith(238u8);
    assert(gf_exp(45) == 193);
    lemma_gf_double_arith(193u8);
    assert(gf_exp(46) == 159);
    lemma_gf_double_arith(159u8);
    assert(gf_exp(47) == 35);
    lemma_gf_double_arith(35u8);
    assert(gf_exp(48) == 70);
    lemma_gf_double_arith(70u8);
    assert(gf_exp(49) == 140);
    lemma_gf_double_arith(140u8);
    assert(gf_exp(50) == 5);
    lemma_gf_double_arith(5u8);
    assert(gf_exp(51) == 10);
    lemma_gf_double_arith(10u8);
    assert(gf_exp(52) == 20);
    lemma_gf_double_arith(20u8);
    assert(gf_exp(53) == 40);
    lemma_gf_double_arith(40u8);
    assert(gf_exp(54) == 80);
    lemma_gf_double_arith(80u8);
    assert(gf_exp(55) == 160);
    lemma_gf_double_arith(160u8);
    assert(gf_exp(56) == 93);
    lemma_gf_double_arith(93u8);
    assert(gf_exp(57) == 186);
    lemma_gf_double_arith(186u8);
    assert(gf_exp(58) == 105);
    lemma_gf_double_arith(105u8);
    assert(gf_exp(59) == 210);
    lemma_gf_double_arith(210u8);
    assert(gf_exp(60) == 185);
    lemma_gf_double_arith(185u8);
    assert(gf_exp(61) == 111);
    lemma_gf_double_arith(111u8);
    assert(gf_exp(62) == 222);
    lemma_gf_double_arith(222u8);
    assert(gf_exp(63) == 161);
    lemma_gf_double_arith(161u8);
    assert(gf_exp(64) == 95);
}

proof fn lemma_gf_exp_values_2()
    requires
        gf_exp(64) == 95,
    ensures
        gf_exp(65) == 190,
        gf_exp(66) == 97,
        gf_exp(67) == 194,
        gf_exp(68) == 153,
        gf_exp(69) == 47,
        gf_exp(70) == 94,
        gf_exp(71) == 188,
        gf_exp(72) == 101,
        gf_exp(73) == 202,
        gf_exp(74) == 137,
        gf_exp(75) == 15,
        gf_exp(76) == 30,
        gf_exp(77) == 60,
        gf_exp(78) == 120,
        gf_exp(79) == 240,
        gf_exp(80) == 253,
        gf_exp(81) == 231,
        gf_exp(82) == 211,
        gf_exp(83) == 187,
        gf_exp(84) == 107,
        gf_exp(85) == 214,
        gf_exp(86) == 177,
        gf_exp(87) == 127,
        gf_exp(88) == 254,
        gf_exp(89) == 225,
        gf_exp(90) == 223,
        gf_exp(91) == 163,
        gf_exp(92) == 91,
        gf_exp(93) == 182,
        gf_exp(94) == 113,
        gf_exp(95) == 226,
        gf_exp(96) == 217,
{
    lemma_gf_double_arith(95u8);
    assert(gf_exp(65) == 190);
    lemma_gf_double_arith(190u8);
    assert(gf_exp(66) == 97);
    lemma_gf_double_arith(97u8);
    assert(gf_exp(67) == 194);
    lemma_gf_double_arith(194u8);
    assert(gf_exp(68) == 153);
    lemma_gf_double_arith(153u8);
    assert(gf_exp(69) == 47);
    lemma_gf_double_arith(47u8);
    assert(gf_exp(70) == 94);
    lemma_gf_double_arith(94u8);
    assert(gf_exp(71) == 188);
    lemma_gf_double_arith(188u8);
    assert(gf_exp(72) == 101);
    lemma_gf_double_arith(101u8);
    assert(gf_exp(73) == 202);
    lemma_gf_double_arith(202u8);
    assert(gf_exp(74) == 137);
    lemma_gf_double_arith(137u8);
    assert(gf_exp(75) == 15);
    lemma_gf_double_arith(15u8);
    assert(gf_exp(76) == 30);
    lemma_gf_double_arith(30u8);
    assert(gf_exp(77) == 60);
    lemma_gf_double_arith(60u8);
    assert(gf_exp(78) == 120);
    lemma_gf_double_arith(120u8);
    assert(gf_exp(79) == 240);
    lemma_gf_double_arith(240u8);
    assert(gf_exp(80) == 253);
    lemma_gf_double_arith(253u8);
    assert(gf_exp(81) == 231);
    lemma_gf_double_arith(231u8);
    assert(gf_exp(82) == 211);
    lemma_gf_double_arith(211u8);
    assert(gf_exp(83) == 187);
    lemma_gf_double_arith(187u8);
    assert(gf_exp(84) == 107);
    lemma_gf_double_arith(107u8);
    assert(gf_exp(85) == 214);
    lemma_gf_double_arith(214u8);
    assert(gf_exp(86) == 177);
    lemma_gf_double_arith(177u8);
    assert(gf_exp(87) == 127);
    lemma_gf_double_arith(127u8);
    assert(gf_exp(88) == 254);
    lemma_gf_double_arith(254u8);
    assert(gf_exp(89) == 225);
    lemma_gf_double_arith(225u8);
    assert(gf_exp(90) == 223);
    lemma_gf_double_arith(223u8);
    assert(gf_exp(91) == 163);
    lemma_gf_double_arith(163u8);
    assert(gf_exp(92) == 91);
    lemma_gf_double_arith(91u8);
    assert(gf_exp(93) == 182);
    lemma_gf_double_arith(182u8);
    assert(gf_exp(94) == 113);
    lemma_gf_double_arith(113u8);
    assert(gf_exp(95) == 226);
    lemma_gf_double_arith(226u8);
    assert(gf_exp(96) == 217);
}

proof fn lemma_gf_exp_values_3()
    requires
        gf_exp(96) == 217,
    ensures
        gf_exp(97) == 175,
        gf_exp(98) == 67,
        gf_exp(99) == 134,
        gf_exp(100) == 17,
        gf_exp(101) == 34,
        gf_exp(102) == 68,
        gf_exp(103) == 136,
        gf_exp(104) == 13,
        gf_exp(105) == 26,
        gf_exp(106) == 52,
        gf_exp(107) == 104,
        gf_exp(108) == 208,
        gf_exp(109) == 189,
        gf_exp(110) == 103,
        gf_exp(111) == 206,
        gf_exp(112) == 129,
        gf_exp(113) == 31,
        gf_exp(114) == 62,
        gf_exp(115) == 124,
        gf_exp(116) == 248,
        gf_exp(117) == 237,
        gf_exp(118) == 199,
        gf_exp(119) == 147,
        gf_exp(120) == 59,
        gf_exp(121) == 118,
        gf_exp(122) == 236,
        gf_exp(123) == 197,
        gf_exp(124) == 151,
        gf_exp(125) == 51,
        gf_exp(126) == 102,
        gf_exp(127) == 204,
        gf_exp(128) == 133,
{
    lemma_gf_double_arith(217u8);
    assert(gf_exp(97) == 175);
    lemma_gf_double_arith(175u8);
    assert(gf_exp(98) == 67);
    lemma_gf_double_arith(67u8);
    assert(gf_exp(99) == 134);
    lemma_gf_double_arith(134u8);
    assert(gf_exp(100) == 17);
    lemma_gf_double_arith(17u8);
    assert(gf_exp(101) == 34);
    lemma_gf_double_arith(34u8);
    assert(gf_exp(102) == 68);
    lemma_gf_double_arith(68u8);
    assert(gf_exp(103) == 136);
    lemma_gf_double_arith(136u8);
    assert(gf_exp(104) == 13);
    lemma_gf_double_arith(13u8);
    assert(gf_exp(105) == 26);
    lemma_gf_double_arith(26u8);
    assert(gf_exp(106) == 52);
    lemma_gf_double_arith(52u8);
    assert(gf_exp(107) == 104);
    lemma_gf_double_arith(104u8);
    assert(gf_exp(108) == 208);
    lemma_gf_double_arith(208u8);
    assert(gf_exp(109) == 189);
    lemma_gf_double_arith(189u8);
    assert(gf_exp(110) == 103);
    lemma_gf_double_arith(103u8);
    assert(gf_exp(111) == 206);
    lemma_gf_double_arith(206u8);
    assert(gf_exp(112) == 129);
    lemma_gf_double_arith(129u8);
    assert(gf_exp(113) == 31);
    lemma_gf_double_arith(31u8);
    assert(gf_exp(114) == 62);
    lemma_gf_double_arith(62u8);
    assert(gf_exp(115) == 124);
    lemma_gf_double_arith(124u8);
    assert(gf_exp(116) == 248);
    lemma_gf_double_arith(248u8);
    assert(gf_exp(117) == 237);
    lemma_gf_double_arith(237u8);
    assert(gf_exp(118) == 199);
    lemma_gf_double_arith(199u8);
    assert(gf_exp(119) == 147);
    lemma_gf_double_arith(147u8);
    assert(gf_exp(120) == 59);
    lemma_gf_double_arith(59u8);
    assert(gf_exp(121) == 118);
    lemma_gf_double_arith(118u8);
    assert(gf_exp(122) == 236);
    lemma_gf_double_arith(236u8);
    assert(gf_exp(123) == 197);
    lemma_gf_double_arith(197u8);
    assert(gf_exp(124) == 151);
    lemma_gf_double_arith(151u8);
    assert(gf_exp(125) == 51);
    lemma_gf_double_arith(51u8);
    assert(gf_exp(126) == 102);
    lemma_gf_double_arith(102u8);
    assert(gf_exp(127) == 204);
    lemma_gf_double_arith(204u8);
    assert(gf_exp(128) == 133);
}

proof fn lemma_gf_exp_values_4()
    requires
        gf_exp(128) == 133,
    ensures
        gf_exp(129) == 23,
        gf_exp(130) == 46,
        gf_exp(131) == 92,
        gf_exp(132) == 184,
        gf_exp(133) == 109,
        gf_exp(134) == 218,
        gf_exp(135) == 169,
        gf_exp(136) == 79,
        gf_exp(137) == 158,
        gf_exp(138) == 33,
        gf_exp(139) == 66,
        gf_exp(140) == 132,
        gf_exp(141) == 21,
        gf_exp(142) == 42,
        gf_exp(143) == 84,
        gf_exp(144) == 168,
        gf_exp(145) == 77,
        gf_exp(146) == 154,
        gf_exp(147) == 41,
        gf_exp(148) == 82,
        gf_exp(149) == 164,
        gf_exp(150) == 85,
        gf_exp(151) == 170,
        gf_exp(152) == 73,
        gf_exp(153) == 146,
        gf_exp(154) == 57,
        gf_exp(155) == 114,
        gf_exp(156) == 228,
        gf_exp(157) == 213,
        gf_exp(158) == 183,
        gf_exp(159) == 115,
        gf_exp(160) == 230,
{
    lemma_gf_double_arith(133u8);
    assert(gf_exp(129) == 23);
    lemma_gf_double_arith(23u8);
    assert(gf_exp(130) == 46);
    lemma_gf_double_arith(46u8);
    assert(gf_exp(131) == 92);
    lemma_gf_double_arith(92u8);
    assert(gf_exp(132) == 184);
    lemma_gf_double_arith(184u8);
    assert(gf_exp(133) == 109);
    lemma_gf_double_arith(109u8);
    assert(gf_exp(134) == 218);
    lemma_gf_double_arith(218u8);
    assert(gf_exp(135) == 169);
    lemma_gf_double_arith(169u8);
    assert(gf_exp(136) == 79);
    lemma_gf_double_arith(79u8);
    assert(gf_exp(137) == 158);
    lemma_gf_double_arith(158u8);
    assert(gf_exp(138) == 33);
    lemma_gf_double_arith(33u8);
    assert(gf_exp(139) == 66);
    lemma_gf_double_arith(66u8);
    assert(gf_exp(140) == 132);
    lemma_gf_double_arith(132u8);
    assert(gf_exp(141) == 21);
    lemma_gf_double_arith(21u8);
    assert(gf_exp(142) == 42);
    lemma_gf_double_arith(42u8);
    assert(gf_exp(143) == 84);
    lemma_gf_double_arith(84u8);
    assert(gf_exp(144) == 168);
    lemma_gf_double_arith(168u8);
    assert(gf_exp(145) == 77);
    lemma_gf_double_arith(77u8);
    assert(gf_exp(146) == 154);
    lemma_gf_double_arith(154u8);
    assert(gf_exp(147) == 41);
    lemma_gf_double_arith(41u8);
    assert(gf_exp(148) == 82);
    lemma_gf_double_arith(82u8);
    assert(gf_exp(149) == 164);
    lemma_gf_double_arith(164u8);
    assert(gf_exp(150) == 85);
    lemma_gf_double_arith(85u8);
    assert(gf_exp(151) == 170);
    lemma_gf_double_arith(170u8);
    assert(gf_exp(152) == 73);
    lemma_gf_double_arith(73u8);
    assert(gf_exp(153) == 146);
    lemma_gf_double_arith(146u8);
    assert(gf_exp(154) == 57);
    lemma_gf_double_arith(57u8);
    assert(gf_exp(155) == 114);
    lemma_gf_double_arith(114u8);
    assert(gf_exp(156) == 228);
    lemma_gf_double_arith(228u8);
    assert(gf_exp(157) == 213);
    lemma_gf_double_arith(213u8);
    assert(gf_exp(158) == 183);
    lemma_gf_double_arith(183u8);
    assert(gf_exp(159) == 115);
    lemma_gf_double_arith(115u8);
    assert(gf_exp(160) == 230);
}

proof fn lemma_gf_exp_values_5()
    requires
        gf_exp(160) == 230,
    ensures
        gf_exp(161) == 209,
        gf_exp(162) == 191,
        gf_exp(163) == 99,
        gf_exp(164) == 198,
        gf_exp(165) == 145,
        gf_exp(166) == 63,
        gf_exp(167) == 126,
        gf_exp(168) == 252,
        gf_exp(169) == 229,
        gf_exp(170) == 215,
        gf_exp(171) == 179,
        gf_exp(172) == 123,
        gf_exp(173) == 246,
        gf_exp(174) == 241,
        gf_exp(175) == 255,
        gf_exp(176) == 227,
        gf_exp(177) == 219,
        gf_exp(178) == 171,
        gf_exp(179) == 75,
        gf_exp(180) == 150,
        gf_exp(181) == 49,
        gf_exp(182) == 98,
        gf_exp(183) == 196,
        gf_exp(184) == 149,
        gf_exp(185) == 55,
        gf_exp(186) == 110,
        gf_exp(187) == 220,
        gf_exp(188) == 165,
        gf_exp(189) == 87,
        gf_exp(190) == 174,
        gf_exp(191) == 65,
        gf_exp(192) == 130,
{
    lemma_gf_double_arith(230u8);
    assert(gf_exp(161) == 209);
    lemma_gf_double_arith(209u8);
    assert(gf_exp(162) == 191);
    lemma_gf_double_arith(191u8);
    assert(gf_exp(163) == 99);
    lemma_gf_double_arith(99u8);
    assert(gf_exp(164) == 198);
    lemma_gf_double_arith(198u8);
    assert(gf_exp(165) == 145);
    lemma_gf_double_arith(145u8);
    assert(gf_exp(166) == 63);
    lemma_gf_double_arith(63u8);
    assert(gf_exp(167) == 126);
    lemma_gf_double_arith(126u8);
    assert(gf_exp(168) == 252);
    lemma_gf_double_arith(252u8);
    assert(gf_exp(169) == 229);
    lemma_gf_double_arith(229u8);
    assert(gf_exp(170) == 215);
    lemma_gf_double_arith(215u8);
    assert(gf_exp(171) == 179);
    lemma_gf_double_arith(179u8);
    assert(gf_exp(172) == 123);
    lemma_gf_double_arith(123u8);
    assert(gf_exp(173) == 246);
    lemma_gf_double_arith(246u8);
    assert(gf_exp(174) == 241);
    lemma_gf_double_arith(241u8);
    assert(gf_exp(175) == 255);
    lemma_gf_double_arith(255u8);
    assert(gf_exp(176) == 227);
    lemma_gf_double_arith(227u8);
    assert(gf_exp(177) == 219);
    lemma_gf_double_arith(219u8);
    assert(gf_exp(178) == 171);
    lemma_gf_double_arith(171u8);
    assert(gf_exp(179) == 75);
    lemma_gf_double_arith(75u8);
    assert(gf_exp(180) == 150);
    lemma_gf_double_arith(150u8);
    assert(gf_exp(181) == 49);
    lemma_gf_double_arith(49u8);
    assert(gf_exp(182) == 98);
    lemma_gf_double_arith(98u8);
    assert(gf_exp(183) == 196);
    lemma_gf_double_arith(196u8);
    assert(gf_exp(184) == 149);
    lemma_gf_double_arith(149u8);
    assert(gf_exp(185) == 55);
    lemma_gf_double_arith(55u8);
    assert(gf_exp(186) == 110);
    lemma_gf_double_arith(110u8);
    assert(gf_exp(187) == 220);
    lemma_gf_double_arith(220u8);
    assert(gf_exp(188) == 165);
    lemma_gf_double_arith(165u8);
    assert(gf_exp(189) == 87);
    lemma_gf_double_arith(87u8);
    assert(gf_exp(190) == 174);
    lemma_gf_double_arith(174u8);
    assert(gf_exp(191) == 65);
    lemma_gf_double_arith(65u8);
    assert(gf_exp(192) == 130);
}

proof fn lemma_gf_exp_values_6()
    requires
        gf_exp(192) == 130,
    ensures
        gf_exp(193) == 25,
        gf_exp(194) == 50,
        gf_exp(195) == 100,
        gf_exp(196) == 200,
        gf_exp(197) == 141,
        gf_exp(198) == 7,
        gf_exp(199) == 14,
        gf_exp(200) == 28,
        gf_exp(201) == 56,
        gf_exp(202) == 112,
        gf_exp(203) == 224,
        gf_exp(204) == 221,
        gf_exp(205) == 167,
        gf_exp(206) == 83,
        gf_exp(207) == 166,
        gf_exp(208) == 81,
        gf_exp(209) == 162,
        gf_exp(210) == 89,
        gf_exp(211) == 178,
        gf_exp(212) == 121,
        gf_exp(213) == 242,
        gf_exp(214) == 249,
        gf_exp(215) == 239,
        gf_exp(216) == 195,
        gf_exp(217) == 155,
        gf_exp(218) == 43,
        gf_exp(219) == 86,
        gf_exp(220) == 172,
        gf_exp(221) == 69,
        gf_exp(222) == 138,
        gf_exp(223) == 9,
        gf_exp(224) == 18,
{
    lemma_gf_double_arith(130u8);
    assert(gf_exp(193) == 25);
    lemma_gf_double_arith(25u8);
    assert(gf_exp(194) == 50);
    lemma_gf_double_arith(50u8);
    assert(gf_exp(195) == 100);
    lemma_gf_double_arith(100u8);
    assert(gf_exp(196) == 200);
    lemma_gf_double_arith(200u8);
    assert(gf_exp(197) == 141);
    lemma_gf_double_arith(141u8);
    assert(gf_exp(198) == 7);
    lemma_gf_double_arith(7u8);
    assert(gf_exp(199) == 14);
    lemma_gf_double_arith(14u8);
    assert(gf_exp(200) == 28);
    lemma_gf_double_arith(28u8);
    assert(gf_exp(201) == 56);
    lemma_gf_double_arith(56u8);
    assert(gf_exp(202) == 112);
    lemma_gf_double_arith(112u8);
    assert(gf_exp(203) == 224);
    lemma_gf_double_arith(224u8);
    assert(gf_exp(204) == 221);
    lemma_gf_double_arith(221u8);
    assert(gf_exp(205) == 167);
    lemma_gf_double_arith(167u8);
    assert(gf_exp(206) == 83);
    lemma_gf_double_arith(83u8);
    assert(gf_exp(207) == 166);
    lemma_gf_double_arith(166u8);
    assert(gf_exp(208) == 81);
    lemma_gf_double_arith(81u8);
    assert(gf_exp(209) == 162);
    lemma_gf_double_arith(162u8);
    assert(gf_exp(210) == 89);
    lemma_gf_double_arith(89u8);
    assert(gf_exp(211) == 178);
    lemma_gf_double_arith(178u8);
    assert(gf_exp(212) == 121);
    lemma_gf_double_arith(121u8);
    assert(gf_exp(213) == 242);
    lemma_gf_double_arith(242u8);
    assert(gf_exp(214) == 249);
    lemma_gf_double_arith(249u8);
    assert(gf_exp(215) == 239);
    lemma_gf_double_arith(239u8);
    assert(gf_exp(216) == 195);
    lemma_gf_double_arith(195u8);
    assert(gf_exp(217) == 155);
    lemma_gf_double_arith(155u8);
    assert(gf_exp(218) == 43);
    lemma_gf_double_arith(43u8);
    assert(gf_exp(219) == 86);
    lemma_gf_double_arith(86u8);
    assert(gf_exp(220) == 172);
    lemma_gf_double_arith(172u8);
    assert(gf_exp(221) == 69);
    lemma_gf_double_arith(69u8);
    assert(gf_exp(222) == 138);
    lemma_gf_double_arith(138u8);
    assert(gf_exp(223) == 9);
    lemma_gf_double_arith(9u8);
    assert(gf_exp(224) == 18);
}

proof fn lemma_gf_exp_values_7()
    requires
        gf_exp(224) == 18,
    ensures
        gf_exp(225) == 36,
        gf_exp(226) == 72,
        gf_exp(227) == 144,
        gf_exp(228) == 61,
        gf_exp(229) == 122,
        gf_exp(230) == 244,
        gf_exp(231) == 245,
        gf_exp(232) == 247,
        gf_exp(233) == 243,
        gf_exp(234) == 251,
        gf_exp(235) == 235,
        gf_exp(236) == 203,
        gf_exp(237) == 139,
        gf_exp(238) == 11,
        gf_exp(239) == 22,
        gf_exp(240) == 44,
        gf_exp(241) == 88,
        gf_exp(242) == 176,
        gf_exp(243) == 125,
        gf_exp(244) == 250,
        gf_exp(245) == 233,
        gf_exp(246) == 207,
        gf_exp(247) == 131,
        gf_exp(248) == 27,
        gf_exp(249) == 54,
        gf_exp(250) == 108,
        gf_exp(251) == 216,
        gf_exp(252) == 173,
        gf_exp(253) == 71,
        gf_exp(254) == 142,
        gf_exp(255) == 1,
{
    lemma_gf_double_arith(18u8);
    assert(gf_exp(225) == 36);
    lemma_gf_double_arith(36u8);
    assert(gf_exp(226) == 72);
    lemma_gf_double_arith(72u8);
    assert(gf_exp(227) == 144);
    lemma_gf_double_arith(144u8);
    assert(gf_exp(228) == 61);
    lemma_gf_double_arith(61u8);
    assert(gf_exp(229) == 122);
    lemma_gf_double_arith(122u8);
    assert(gf_exp(230) == 244);
    lemma_gf_double_arith(244u8);
    assert(gf_exp(231) == 245);
    lemma_gf_double_arith(245u8);
    assert(gf_exp(232) == 247);
    lemma_gf_double_arith(247u8);
    assert(gf_exp(233) == 243);
    lemma_gf_double_arith(243u8);
    assert(gf_exp(234) == 251);
    lemma_gf_double_arith(251u8);
    assert(gf_exp(235) == 235);
    lemma_gf_double_arith(235u8);
    assert(gf_exp(236) == 203);
    lemma_gf_double_arith(203u8);
    assert(gf_exp(237) == 139);
    lemma_gf_double_arith(139u8);
    assert(gf_exp(238) == 11);
    lemma_gf_double_arith(11u8);
    assert(gf_exp(239) == 22);
    lemma_gf_double_arith(22u8);
    assert(gf_exp(240) == 44);
    lemma_gf_double_arith(44u8);
    assert(gf_exp(241) == 88);
    lemma_gf_double_arith(88u8);
    assert(gf_exp(242) == 176);
    lemma_gf_double_arith(176u8);
    assert(gf_exp(243) == 125);
    lemma_gf_double_arith(125u8);
    assert(gf_exp(244) == 250);
    lemma_gf_double_arith(250u8);
    assert(gf_exp(245) == 233);
    lemma_gf_double_arith(233u8);
    assert(gf_exp(246) == 207);
    lemma_gf_double_arith(207u8);
    assert(gf_exp(247) == 131);
    lemma_gf_double_arith(131u8);
    assert(gf_exp(248) == 27);
    lemma_gf_double_arith(27u8);
    assert(gf_exp(249) == 54);
    lemma_gf_double_arith(54u8);
    assert(gf_exp(250) == 108);
    lemma_gf_double_arith(108u8);
    assert(gf_exp(251) == 216);
    lemma_gf_double_arith(216u8);
    assert(gf_exp(252) == 173);
    lemma_gf_double_arith(173u8);
    assert(gf_exp(253) == 71);
    lemma_gf_double_arith(71u8);
    assert(gf_exp(254) == 142);
    lemma_gf_double_arith(142u8);
    assert(gf_exp(255) == 1);
}

/// The powers x^0 .. x^255, evaluated.
proof fn lemma_gf_exp_values()
    ensures
        gf_exp(0) == 1,
        gf_exp(1) == 2,
        gf_exp(2) == 4,
        gf_exp(3) == 8,
        gf_exp(4) == 16,
        gf_exp(5) == 32,
        gf_exp(6) == 64,
        gf_exp(7) == 128,
        gf_exp(8) == 29,
        gf_exp(9) == 58,
        gf_exp(10) == 116,
        gf_exp(11) == 232,
        gf_exp(12) == 205,
        gf_exp(13) == 135,
        gf_exp(14) == 19,
        gf_exp(15) == 38,
        gf_exp(16) == 76,
        gf_exp(17) == 152,
        gf_exp(18) == 45,
        gf_exp(19) == 90,
        gf_exp(20) == 180,
        gf_exp(21) == 117,
        gf_exp(22) == 234,
        gf_exp(23) == 201,
        gf_exp(24) == 143,
        gf_exp(25) == 3,
        gf_exp(26) == 6,
        gf_exp(27) == 12,
        gf_exp(28) == 24,
        gf_exp(29) == 48,
        gf_exp(30) == 96,
        gf_exp(31) == 192,
        gf_exp(32) == 157,
        gf_exp(33) == 39,
        gf_exp(34) == 78,
        gf_exp(35) == 156,
        gf_exp(36) == 37,
        gf_exp(37) == 74,
        gf_exp(38) == 148,
        gf_exp(39) == 53,
        gf_exp(40) == 106,
        gf_exp(41) == 212,
        gf_exp(42) == 181,
        gf_exp(43) == 119,
        gf_exp(44) == 238,
        gf_exp(45) == 193,
        gf_exp(46) == 159,
        gf_exp(47) == 35,
        gf_exp(48) == 70,
        gf_exp(49) == 140,
        gf_exp(50) == 5,
        gf_exp(51) == 10,
        gf_exp(52) == 20,
        gf_exp(53) == 40,
        gf_exp(54) == 80,
        gf_exp(55) == 160,
        gf_exp(56) == 93,
        gf_exp(57) == 186,
        gf_exp(58) == 105,
        gf_exp(59) == 210,
        gf_exp(60) == 185,
        gf_exp(61) == 111,
        gf_exp(62) == 222,
        gf_exp(63) == 161,
        gf_exp(64) == 95,
        gf_exp(65) == 190,
        gf_exp(66) == 97,
        gf_exp(67) == 194,
        gf_exp(68) == 153,
        gf_exp(69) == 47,
        gf_exp(70) == 94,
        gf_exp(71) == 188,
        gf_exp(72) == 101,
        gf_exp(73) == 202,
        gf_exp(74) == 137,
        gf_exp(75) == 15,
        gf_exp(76) == 30,
        gf_exp(77) == 60,
        gf_exp(78) == 120,
        gf_exp(79) == 240,
        gf_exp(80) == 253,
        gf_exp(81) == 231,
        gf_exp(82) == 211,
        gf_exp(83) == 187,
        gf_exp(84) == 107,
        gf_exp(85) == 214,
        gf_exp(86) == 177,
        gf_exp(87) == 127,
        gf_exp(88) == 254,
        gf_exp(89) == 225,
        gf_exp(90) == 223,
        gf_exp(91) == 163,
        gf_exp(92) == 91,
        gf_exp(93) == 182,
        gf_exp(94) == 113,
        gf_exp(95) == 226,
        gf_exp(96) == 217,
        gf_exp(97) == 175,
        gf_exp(98) == 67,
        gf_exp(99) == 134,
        gf_exp(100) == 17,
        gf_exp(101) == 34,
        gf_exp(102) == 68,
        gf_exp(103) == 136,
        gf_exp(104) == 13,
        gf_exp(105) == 26,
        gf_exp(106) == 52,
        gf_exp(107) == 104,
        gf_exp(108) == 208,
        gf_exp(109) == 189,
        gf_exp(110) == 103,
        gf_exp(111) == 206,
        gf_exp(112) == 129,
        gf_exp(113) == 31,
        gf_exp(114) == 62,
        gf_exp(115) == 124,
        gf_exp(116) == 248,
        gf_exp(117) == 237,
        gf_exp(118) == 199,
        gf_exp(119) == 147,
        gf_exp(120) == 59,
        gf_exp(121) == 118,
        gf_exp(122) == 236,
        gf_exp(123) == 197,
        gf_exp(124) == 151,
        gf_exp(125) == 51,
        gf_exp(126) == 102,
        gf_exp(127) == 204,
        gf_exp(128) == 133,
        gf_exp(129) == 23,
        gf_exp(130) == 46,
        gf_exp(131) == 92,
        gf_exp(132) == 184,
        gf_exp(133) == 109,
        gf_exp(134) == 218,
        gf_exp(135) == 169,
        gf_exp(136) == 79,
        gf_exp(137) == 158,
        gf_exp(138) == 33,
        gf_exp(139) == 66,
        gf_exp(140) == 132,
        gf_exp(141) == 21,
        gf_exp(142) == 42,
        gf_exp(143) == 84,
        gf_exp(144) == 168,
        gf_exp(145) == 77,
        gf_exp(146) == 154,
        gf_exp(147) == 41,
        gf_exp(148) == 82,
        gf_exp(149) == 164,
        gf_exp(150) == 85,
        gf_exp(151) == 170,
        gf_exp(152) == 73,
        gf_exp(153) == 146,
        gf_exp(154) == 57,
        gf_exp(155) == 114,
        gf_exp(156) == 228,
        gf_exp(157) == 213,
        gf_exp(158) == 183,
        gf_exp(159) == 115,
        gf_exp(160) == 230,
        gf_exp(161) == 209,
        gf_exp(162) == 191,
        gf_exp(163) == 99,
        gf_exp(164) == 198,
        gf_exp(165) == 145,
        gf_exp(166) == 63,
        gf_exp(167) == 126,
        gf_exp(168) == 252,
        gf_exp(169) == 229,
        gf_exp(170) == 215,
        gf_exp(171) == 179,
        gf_exp(172) == 123,
        gf_exp(173) == 246,
        gf_exp(174) == 241,
        gf_exp(175) == 255,
        gf_exp(176) == 227,
        gf_exp(177) == 219,
        gf_exp(178) == 171,
        gf_exp(179) == 75,
        gf_exp(180) == 150,
        gf_exp(181) == 49,
        gf_exp(182) == 98,
        gf_exp(183) == 196,
        gf_exp(184) == 149,
        gf_exp(185) == 55,
        gf_exp(186) == 110,
        gf_exp(187) == 220,
        gf_exp(188) == 165,
        gf_exp(189) == 87,
        gf_exp(190) == 174,
        gf_exp(191) == 65,
        gf_exp(192) == 130,
        gf_exp(193) == 25,
        gf_exp(194) == 50,
        gf_exp(195) == 100,
        gf_exp(196) == 200,
        gf_exp(197) == 141,
        gf_exp(198) == 7,
        gf_exp(199) == 14,
        gf_exp(200) == 28,
        gf_exp(201) == 56,
        gf_exp(202) == 112,
        gf_exp(203) == 224,
        gf_exp(204) == 221,
        gf_exp(205) == 167,
        gf_exp(206) == 83,
        gf_exp(207) == 166,
        gf_exp(208) == 81,
        gf_exp(209) == 162,
        gf_exp(210) == 89,
        gf_exp(211) == 178,
        gf_exp(212) == 121,
        gf_exp(213) == 242,
        gf_exp(214) == 249,
        gf_exp(215) == 239,
        gf_exp(216) == 195,
        gf_exp(217) == 155,
        gf_exp(218) == 43,
        gf_exp(219) == 86,
        gf_exp(220) == 172,
        gf_exp(221) == 69,
        gf_exp(222) == 138,
        gf_exp(223) == 9,
        gf_exp(224) == 18,
        gf_exp(225) == 36,
        gf_exp(226) == 72,
        gf_exp(227) == 144,
        gf_exp(228) == 61,
        gf_exp(229) == 122,
        gf_exp(230) == 244,
        gf_exp(231) == 245,
        gf_exp(232) == 247,
        gf_exp(233) == 243,
        gf_exp(234) == 251,
        gf_exp(235) == 235,
        gf_exp(236) == 203,
        gf_exp(237) == 139,
        gf_exp(238) == 11,
        gf_exp(239) == 22,
        gf_exp(240) == 44,
        gf_exp(241) == 88,
        gf_exp(242) == 176,
        gf_exp(243) == 125,
        gf_exp(244) == 250,
        gf_exp(245) == 233,
        gf_exp(246) == 207,
        gf_exp(247) == 131,
        gf_exp(248) == 27,
        gf_exp(249) == 54,
        gf_exp(250) == 108,
        gf_exp(251) == 216,
        gf_exp(252) == 173,
        gf_exp(253) == 71,
        gf_exp(254) == 142,
        gf_exp(255) == 1,
{
    assert(gf_exp(0) == 1);
    lemma_gf_exp_values_0();
    lemma_gf_exp_values_1();
    lemma_gf_exp_values_2();
    lemma_gf_exp_values_3();
    lemma_gf_exp_values_4();
    lemma_gf_exp_values_5();
    lemma_gf_exp_values_6();
    lemma_gf_exp_values_7();
}

/// Every nonzero element is a power of x with exponent below 255, and x^255 = 1.
pub proof fn lemma_gf_exp_covers()
    ensures
        gf_exp(255) == 1,
        forall|v: int| 1 <= v <= 255 ==> #[trigger] gf_log_of(v) < 255 && gf_exp(gf_log_of(v)) == v,
{
    lemma_gf_exp_values();
    reveal(gf_log_of);
}

pub proof fn lemma_xor_zero(v: u8)
    ensures
        v ^ 0u8 == v,
        0u8 ^ v == v,
        v ^ v == 0u8,
{
    assert(v ^ 0u8 == v && 0u8 ^ v == v && v ^ v == 0u8) by (bit_vector);
}

/// x^(a+b) = x^a * x^b.
pub proof fn lemma_gf_exp_add(a: nat, b: nat)
    ensures
        gf_exp(a + b) == gf_mul(gf_exp(a), gf_exp(b)),
    decreases b,
{
    if b == 0 {
        lemma_gf_mul_one(gf_exp(a));
    } else {
        lemma_gf_exp_add(a, (b - 1) as nat);
        lemma_gf_double_mul(gf_exp(a), gf_exp((b - 1) as nat));
        assert(gf_exp(a + b) == gf_double(gf_exp((a + b - 1) as nat)));
    }
}

/// The powers of x repeat with period 255.
pub proof fn lemma_gf_exp_period(n: nat)
    ensures
        gf_exp(n + 255) == gf_exp(n),
{
    lemma_gf_exp_add(n, 255);
    lemma_gf_exp_covers();
    lemma_gf_mul_one(gf_exp(n));
}

/// State of the shift-and-add multiplication once the bits of `y` from 7
/// down to `i` have been processed.
pub open spec fn gf_mul_from(x: u8, y: u8, i: nat) -> u8
    decreases 8 - i,
{
    if i >= 8 {
        0
    } else {
        gf_mul_step(gf_mul_from(x, y, i + 1), x, y, i as u8)
    }
}

proof fn lemma_gf_mul_from_all(x: u8, y: u8)
    ensures
        gf_mul_from(x, y, 0) == gf_mul(x, y),
{
    reveal_with_fuel(gf_mul_from, 9);
}

/// Product in GF(2^8) by shift-and-add, without tables.
pub fn gf_multiply_const(x: u8, y: u8) -> (r: u8)
    ensures
        r == gf_mul(x, y),
{
    let mut z = 0u8;
    let mut i = 8u8;
    while i > 0
        invariant
            i <= 8,
            z == gf_mul_from(x, y, i as nat),
        decreases i,
    {
        i -= 1;
        assert((z >> 7u8) <= 1) by (bit_vector);
        let d: u8 = (z << 1) ^ ((z >> 7) * 0x1D);
        assert(i < 8 ==> ((y >> i) & 1u8) <= 1) by (bit_vector);
        assert(((y >> i) & 1u8) * x <= 255) by (nonlinear_arith)
            requires
                ((y >> i) & 1u8) <= 1,
        ;
        let e: u8 = ((y >> i) & 1) * x;
        z = d ^ e;
        assert(z == gf_mul_step(gf_mul_from(x, y, (i + 1) as nat), x, y, i));
    }
    proof {
        lemma_gf_mul_from_all(x, y);
    }
    z
}

/// The exponential and logarithm tables: `exp[i]` is x^i for i < 512; for
/// nonzero `v`, `log[v]` is an exponent below 255 with x^log[v] = v, and
/// `log[0]` is 0.
pub open spec fn gf_tables_wf(exp: Seq<u8>, log: Seq<u8>) -> bool {
    &&& exp.len() == 512
    &&& log.len() == 256
    &&& log[0] == 0
    &&& forall|i: int| 0 <= i < 512 ==> #[trigger] exp[i] == gf_exp(i as nat)
    &&& forall|v: int| 1 <= v < 256 ==> #[trigger] log[v] < 255 && gf_exp(log[v] as nat) == v
}

proof fn lemma_double_u16(x: u16)
    requires
        x < 256,
    ensures
        ({
            let y: u16 = x << 1u16;
            let z: u16 = if y & 0x100u16 != 0 { y ^ 0x11Du16 } else { y };
            z < 256 && z as u8 == gf_double(x as u8) && (x != 0 ==> z != 0)
        }),
{
    assert({
        let y: u16 = x << 1u16;
        let z: u16 = if y & 0x100u16 != 0 { y ^ 0x11Du16 } else { y };
        z < 256 && z as u8 == gf_double(x as u8) && (x != 0 ==> z != 0)
    }) by (bit_vector)
        requires
            x < 256,
    ;
}

/// Whether `log` holds, for x^j, an exponent below `bound` whose power is x^j.
pub open spec fn log_entry_ok(log: Seq<u8>, j: int, bound: int) -> bool {
    log[gf_exp(j as nat) as int] < bound && gf_exp(log[gf_exp(j as nat) as int] as nat) == gf_exp(
        j as nat,
    )
}

proof fn lemma_log_table_complete(log: Seq<u8>)
    requires
        log.len() == 256,
        forall|j: int| 0 <= j < 255 ==> #[trigger] log_entry_ok(log, j, 255),
    ensures
        forall|v: int| 1 <= v < 256 ==> #[trigger] log[v] < 255 && gf_exp(log[v] as nat) == v,
{
    lemma_gf_exp_covers();
    assert forall|v: int| 1 <= v < 256 implies #[trigger] log[v] < 255 && gf_exp(log[v] as nat)
        == v by {
        let j = gf_log_of(v);
        assert(gf_exp(j) == v);
        assert(log_entry_ok(log, j as int, 255));
    }
}

/// Builds the exponential and logarithm tables of GF(2^8).
pub fn build_gf_tables() -> (r: ([u8; 512], [u8; 256]))
    ensures
        gf_tables_wf(r.0@, r.1@),
{
    let mut exp = [0u8; 512];
    let mut log = [0u8; 256];
    let mut x: u16 = 1;
    let mut i: usize = 0;
    assert(gf_exp(0) == 1);
    while i < 255
        invariant
            i <= 255,
            0 < x < 256,
            log@[0] == 0,
            x as u8 == gf_exp(i as nat),
            exp@.len() == 512,
            log@.len() == 256,
            forall|j: int| 0 <= j < i ==> #[trigger] exp@[j] == gf_exp(j as nat),
            forall|j: int| 0 <= j < i ==> #[trigger] log_entry_ok(log@, j, i as int),
        decreases 255 - i,
    {
        exp[i] = x as u8;
        let ghost old_log = log@;
        log[x as usize] = i as u8;
        proof {
            lemma_double_u16(x);
            assert forall|j: int| 0 <= j < i + 1 implies #[trigger] log_entry_ok(
                log@,
                j,
                i + 1,
            ) by {
                if gf_exp(j as nat) as int == x as int {
                } else {
                    assert(log_entry_ok(old_log, j, i as int));
                    assert(log@[gf_exp(j as nat) as int] == old_log[gf_exp(j as nat) as int]);
                }
            }
        }
        x = x << 1;
        if x & 0x100 != 0 {
            x = x ^ 0x11D;
        }
        i = i + 1;
        assert(gf_exp(i as nat) == gf_double(gf_exp((i - 1) as nat)));
    }
    proof {
        lemma_log_table_complete(log@);
    }
    while i < 512
        invariant
            255 <= i <= 512,
            exp@.len() == 512,
            log@.len() == 256,
            forall|j: int| 0 <= j < i ==> #[trigger] exp@[j] == gf_exp(j as nat),
            forall|v: int| 1 <= v < 256 ==> #[trigger] log@[v] < 255 && gf_exp(log@[v] as nat) == v,
            log@[0] == 0,
        decreases 512 - i,
    {
        exp[i] = exp[i - 255];
        proof {
            lemma_gf_exp_period((i - 255) as nat);
        }
        i = i + 1;
    }
    (exp, log)
}

/// Product in GF(2^8) through the exponential and logarithm tables.
pub fn gf_multiply(tables: &([u8; 512], [u8; 256]), x: u8, y: u8) -> (r: u8)
    requires
        gf_tables_wf(tables.0@, tables.1@),
    ensures
        r == gf_mul(x, y),
{
    if x == 0 || y == 0 {
        proof {
            lemma_gf_mul_zero(x);
            lemma_gf_mul_zero(y);
        }
        0
    } else {
        let lx = tables.1[x as usize];
        let ly = tables.1[y as usize];
        proof {
            assert(tables.1@[x as int] == lx);
            assert(tables.1@[y as int] == ly);
            lemma_gf_exp_add(lx as nat, ly as nat);
        }
        tables.0[lx as usize + ly as usize]
    }
}

/// The generator polynomial of degree `degree` starts as the constant 1; its
/// coefficients are held highest power first in `degree` slots, the leading
/// (monic) term left implicit.
pub open spec fn rs_gen_init(degree: int) -> Seq<u8> {
    Seq::new(30, |j: int| if j == degree - 1 { 1u8 } else { 0u8 })
}

/// Multiplies the polynomial held in the first `degree` slots of `g` by
/// (x - root).
pub open spec fn rs_gen_step(g: Seq<u8>, degree: int, root: u8) -> Seq<u8> {
    Seq::new(
        30,
        |j: int|
            if j < degree {
                gf_mul(g[j], root) ^ (if j + 1 < degree {
                    g[j + 1]
                } else {
                    0u8
                })
            } else {
                g[j]
            },
    )
}

/// The product (x - x^0)(x - x^1)...(x - x^(i-1)) in the slots of a
/// degree-`degree` generator.
pub open spec fn rs_gen_upto(degree: int, i: nat) -> Seq<u8>
    decreases i,
{
    if i == 0 {
        rs_gen_init(degree)
    } else {
        rs_gen_step(rs_gen_upto(degree, (i - 1) as nat), degree, gf_exp((i - 1) as nat))
    }
}

/// The Reed–Solomon generator polynomial of the given degree,
/// (x - x^0)(x - x^1)...(x - x^(degree-1)), without its leading term, in 30
/// slots; all zero for degree 0.
pub open spec fn rs_generator(degree: int) -> Seq<u8> {
    if degree == 0 {
        Seq::new(30, |j: int| 0u8)
    } else {
        rs_gen_upto(degree, degree as nat)
    }
}

/// Computes the Reed–Solomon generator polynomial of the given degree.
pub fn build_rs_generator(degree: usize) -> (r: [u8; 30])
    requires
        degree <= 30,
    ensures
        r@ == rs_generator(degree as int),
{
    let mut divisor = [0u8; 30];
    if degree == 0 {
        assert(divisor@ =~= rs_generator(0));
        return divisor;
    }
    divisor[degree - 1] = 1;
    assert(divisor@ =~= rs_gen_init(degree as int));
    let mut root: u8 = 1;
    let mut i: usize = 0;
    assert(gf_exp(0) == 1);
    while i < degree
        invariant
            i <= degree <= 30,
            root == gf_exp(i as nat),
            divisor@ == rs_gen_upto(degree as int, i as nat),
        decreases degree - i,
    {
        let ghost g = divisor@;
        let mut j: usize = 0;
        while j < degree
            invariant
                j <= degree <= 30,
                divisor@.len() == 30,
                forall|k: int|
                    0 <= k < j ==> divisor@[k] == #[trigger] rs_gen_step(g, degree as int, root)[k],
                forall|k: int| j <= k < 30 ==> divisor@[k] == #[trigger] g[k],
                g.len() == 30,
            decreases degree - j,
        {
            divisor[j] = gf_multiply_const(divisor[j], root);
            if j + 1 < degree {
                divisor[j] = divisor[j] ^ divisor[j + 1];
            } else {
                proof {
                    lemma_xor_zero(gf_mul(g[j as int], root));
                }
            }
            j = j + 1;
        }
        assert(divisor@ =~= rs_gen_step(g, degree as int, root));
        root = gf_multiply_const(root, 0x02);
        proof {
            lemma_gf_mul_two(gf_exp(i as nat));
        }
        i = i + 1;
    }
    divisor
}

/// Computes the generator polynomials of every degree 0..=30.
pub fn build_rs_generators() -> (r: [[u8; 30]; 31])
    ensures
        forall|d: int| 0 <= d <= 30 ==> (#[trigger] r@[d])@ == rs_generator(d),
{
    let mut result = [[0u8; 30]; 31];
    assert(result@[0]@ =~= rs_generator(0));
    let mut degree: usize = 1;
    while degree <= 30
        invariant
            1 <= degree <= 31,
            result@.len() == 31,
            forall|d: int| 0 <= d < degree ==> (#[trigger] result@[d])@ == rs_generator(d),
        decreases 31 - degree,
    {
        result[degree] = build_rs_generator(degree);
        degree = degree + 1;
    }
    result
}

/// One step of polynomial division by the generator `div`: shift the
/// remainder one place and subtract the generator times the new leading term.
pub open spec fn rs_step(rem: Seq<u8>, b: u8, div: Seq<u8>) -> Seq<u8> {
    let factor = b ^ rem[0];
    Seq::new(
        rem.len(),
        |i: int|
            (if i + 1 < rem.len() {
                rem[i + 1]
            } else {
                0u8
            }) ^ gf_mul(div[i], factor),
    )
}

/// The remainder of data(x) * x^n divided by the generator whose `n`
/// non-leading coefficients are `div`, highest power first.
pub open spec fn rs_remainder(data: Seq<u8>, div: Seq<u8>) -> Seq<u8>
    decreases data.len(),
{
    if data.len() == 0 {
        Seq::new(div.len(), |i: int| 0u8)
    } else {
        rs_step(rs_remainder(data.drop_last(), div), data.last(), div)
    }
}

/// The remainder always has one entry per generator coefficient.
pub proof fn lemma_rs_remainder_len(data: Seq<u8>, div: Seq<u8>)
    ensures
        rs_remainder(data, div).len() == div.len(),
    decreases data.len(),
{
    if data.len() > 0 {
        lemma_rs_remainder_len(data.drop_last(), div);
    }
}

/// A message followed by its error-correction codewords leaves remainder
/// zero: dividing it by the generator leaves nothing over.
pub proof fn lemma_codeword_remainder_zero(data: Seq<u8>, div: Seq<u8>)
    ensures
        rs_remainder(data + rs_remainder(data, div), div) == Seq::new(div.len(), |i: int| 0u8),
{
    let r = rs_remainder(data, div);
    let n = div.len() as int;
    lemma_rs_remainder_len(data, div);
    lemma_codeword_prefix(data, div, n);
    assert(r.take(n) =~= r);
    assert(rs_remainder(data + r.take(n), div) =~= Seq::new(div.len(), |i: int| 0u8));
}

proof fn lemma_codeword_prefix(data: Seq<u8>, div: Seq<u8>, k: int)
    requires
        0 <= k <= div.len(),
    ensures
        rs_remainder(data + rs_remainder(data, div).take(k), div) == Seq::new(
            div.len(),
            |i: int| if i + k < div.len() { rs_remainder(data, div)[i + k] } else { 0u8 },
        ),
    decreases k,
{
    let r = rs_remainder(data, div);
    let n = div.len() as int;
    lemma_rs_remainder_len(data, div);
    if k == 0 {
        assert(data + r.take(0) =~= data);
        assert(r =~= Seq::new(div.len(), |i: int| if i + 0 < n { r[i + 0] } else { 0u8 }));
    } else {
        lemma_codeword_prefix(data, div, k - 1);
        let m = data + r.take(k);
        assert(m.drop_last() =~= data + r.take(k - 1));
        assert(m.last() == r[k - 1]);
        let prev = rs_remainder(data + r.take(k - 1), div);
        lemma_rs_remainder_len(data + r.take(k - 1), div);
        assert(prev[0] == r[k - 1]);
        lemma_xor_zero(r[k - 1]);
        assert forall|i: int| 0 <= i < n implies #[trigger] rs_step(prev, r[k - 1], div)[i] == (if i + k < n {
            r[i + k]
        } else {
            0u8
        }) by {
            lemma_gf_mul_zero(div[i]);
            let a = if i + 1 < n { prev[i + 1] } else { 0u8 };
            lemma_xor_zero(a);
        }
        assert(rs_step(prev, r[k - 1], div) =~= Seq::new(
            div.len(),
            |i: int| if i + k < n { r[i + k] } else { 0u8 },
        ));
    }
}

/// Writes into `result` the Reed–Solomon error-correction codewords of
/// `data` for the generator `divisor`.
pub fn reed_solomon_remainder(
    tables: &([u8; 512], [u8; 256]),
    data: &[u8],
    divisor: &[u8],
    result: &mut Vec<u8>,
)
    requires
        gf_tables_wf(tables.0@, tables.1@),
        divisor.len() == old(result).len(),
        divisor.len() >= 1,
    ensures
        final(result)@ == rs_remainder(data@, divisor@),
        final(result).len() == old(result).len(),
{
    let n = result.len();
    let mut i: usize = 0;
    while i < n
        invariant
            i <= n,
            result.len() == n,
            forall|k: int| 0 <= k < i ==> result@[k] == 0u8,
        decreases n - i,
    {
        result.set(i, 0);
        i = i + 1;
    }
    assert(result@ =~= rs_remainder(data@.take(0), divisor@));
    let mut d: usize = 0;
    while d < data.len()
        invariant
            d <= data.len(),
            result.len() == n,
            n == divisor.len(),
            n >= 1,
            gf_tables_wf(tables.0@, tables.1@),
            result@ == rs_remainder(data@.take(d as int), divisor@),
        decreases data.len() - d,
    {
        let ghost rem = result@;
        let byte = data[d];
        let factor = byte ^ result[0];
        let mut i: usize = 0;
        while i < n - 1
            invariant
                i <= n - 1,
                result.len() == n,
                forall|k: int| 0 <= k < i ==> result@[k] == rem[k + 1],
                forall|k: int| i <= k < n ==> result@[k] == rem[k],
            decreases n - 1 - i,
        {
            let next = result[i + 1];
            result.set(i, next);
            i = i + 1;
        }
        result.set(n - 1, 0);
        let ghost shifted = result@;
        if factor != 0 {
            let mut i: usize = 0;
            while i < n
                invariant
                    i <= n,
                    result.len() == n,
                    n == divisor.len(),
                    gf_tables_wf(tables.0@, tables.1@),
                    forall|k: int|
                        0 <= k < i ==> result@[k] == shifted[k] ^ gf_mul(divisor@[k], factor),
                    forall|k: int| i <= k < n ==> result@[k] == shifted[k],
                decreases n - i,
            {
                let prod = gf_multiply(tables, divisor[i], factor);
                let cur = result[i];
                result.set(i, cur ^ prod);
                i = i + 1;
            }
        } else {
            proof {
                assert forall|k: int| 0 <= k < n implies shifted[k] == shifted[k] ^ gf_mul(
                    divisor@[k],
                    factor,
                ) by {
                    lemma_gf_mul_zero(divisor@[k]);
                    lemma_xor_zero(shifted[k]);
                }
            }
        }
        proof {
            assert(data@.take(d + 1).drop_last() =~= data@.take(d as int));
            assert(result@ =~= rs_step(rem, byte, divisor@));
        }
        d = d + 1;
    }
    assert(data@.take(data.len() as int) =~= data@);
}

} // verus!
