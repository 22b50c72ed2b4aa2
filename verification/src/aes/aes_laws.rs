use crate::aes::aes_constants::{CMDS, INV_SBOX, SBOX};
use crate::aes::aes_functions::{
    cipher, cipher_rounds, gf_mul, inv_cipher, inv_cipher_rounds, inv_mix_columns_spec,
    inv_sbox, inv_shift_rows_spec, inv_sub_bytes_spec, mix_columns_spec, mix_spec, mixed_cell,
    round_key_at, rounds_of, sbox, shift_rows_spec, sub_bytes_spec, with_block, xor_block, xtime,
};
use vstd::prelude::*;

verus! {

proof fn lemma_inv_sbox_0(x: u8)
    requires
        0 <= x < 16,
    ensures
        inv_sbox(sbox(x)) == x,
{
    assert(INV_SBOX[SBOX[0] as int] == 0);
    assert(INV_SBOX[SBOX[1] as int] == 1);
    assert(INV_SBOX[SBOX[2] as int] == 2);
    assert(INV_SBOX[SBOX[3] as int] == 3);
    assert(INV_SBOX[SBOX[4] as int] == 4);
    assert(INV_SBOX[SBOX[5] as int] == 5);
    assert(INV_SBOX[SBOX[6] as int] == 6);
    assert(INV_SBOX[SBOX[7] as int] == 7);
    assert(INV_SBOX[SBOX[8] as int] == 8);
    assert(INV_SBOX[SBOX[9] as int] == 9);
    assert(INV_SBOX[SBOX[10] as int] == 10);
    assert(INV_SBOX[SBOX[11] as int] == 11);
    assert(INV_SBOX[SBOX[12] as int] == 12);
    assert(INV_SBOX[SBOX[13] as int] == 13);
    assert(INV_SBOX[SBOX[14] as int] == 14);
    assert(INV_SBOX[SBOX[15] as int] == 15);
}

proof fn lemma_inv_sbox_1(x: u8)
    requires
        16 <= x < 32,
    ensures
        inv_sbox(sbox(x)) == x,
{
    assert(INV_SBOX[SBOX[16] as int] == 16);
    assert(INV_SBOX[SBOX[17] as int] == 17);
    assert(INV_SBOX[SBOX[18] as int] == 18);
    assert(INV_SBOX[SBOX[19] as int] == 19);
    assert(INV_SBOX[SBOX[20] as int] == 20);
    assert(INV_SBOX[SBOX[21] as int] == 21);
    assert(INV_SBOX[SBOX[22] as int] == 22);
    assert(INV_SBOX[SBOX[23] as int] == 23);
    assert(INV_SBOX[SBOX[24] as int] == 24);
    assert(INV_SBOX[SBOX[25] as int] == 25);
    assert(INV_SBOX[SBOX[26] as int] == 26);
    assert(INV_SBOX[SBOX[27] as int] == 27);
    assert(INV_SBOX[SBOX[28] as int] == 28);
    assert(INV_SBOX[SBOX[29] as int] == 29);
    assert(INV_SBOX[SBOX[30] as int] == 30);
    assert(INV_SBOX[SBOX[31] as int] == 31);
}

proof fn lemma_inv_sbox_2(x: u8)
    requires
        32 <= x < 48,
    ensures
        inv_sbox(sbox(x)) == x,
{
    assert(INV_SBOX[SBOX[32] as int] == 32);
    assert(INV_SBOX[SBOX[33] as int] == 33);
    assert(INV_SBOX[SBOX[34] as int] == 34);
    assert(INV_SBOX[SBOX[35] as int] == 35);
    assert(INV_SBOX[SBOX[36] as int] == 36);
    assert(INV_SBOX[SBOX[37] as int] == 37);
    assert(INV_SBOX[SBOX[38] as int] == 38);
    assert(INV_SBOX[SBOX[39] as int] == 39);
    assert(INV_SBOX[SBOX[40] as int] == 40);
    assert(INV_SBOX[SBOX[41] as int] == 41);
    assert(INV_SBOX[SBOX[42] as int] == 42);
    assert(INV_SBOX[SBOX[43] as int] == 43);
    assert(INV_SBOX[SBOX[44] as int] == 44);
    assert(INV_SBOX[SBOX[45] as int] == 45);
    assert(INV_SBOX[SBOX[46] as int] == 46);
    assert(INV_SBOX[SBOX[47] as int] == 47);
}

proof fn lemma_inv_sbox_3(x: u8)
    requires
        48 <= x < 64,
    ensures
        inv_sbox(sbox(x)) == x,
{
    assert(INV_SBOX[SBOX[48] as int] == 48);
    assert(INV_SBOX[SBOX[49] as int] == 49);
    assert(INV_SBOX[SBOX[50] as int] == 50);
    assert(INV_SBOX[SBOX[51] as int] == 51);
    assert(INV_SBOX[SBOX[52] as int] == 52);
    assert(INV_SBOX[SBOX[53] as int] == 53);
    assert(INV_SBOX[SBOX[54] as int] == 54);
    assert(INV_SBOX[SBOX[55] as int] == 55);
    assert(INV_SBOX[SBOX[56] as int] == 56);
    assert(INV_SBOX[SBOX[57] as int] == 57);
    assert(INV_SBOX[SBOX[58] as int] == 58);
    assert(INV_SBOX[SBOX[59] as int] == 59);
    assert(INV_SBOX[SBOX[60] as int] == 60);
    assert(INV_SBOX[SBOX[61] as int] == 61);
    assert(INV_SBOX[SBOX[62] as int] == 62);
    assert(INV_SBOX[SBOX[63] as int] == 63);
}

proof fn lemma_inv_sbox_4(x: u8)
    requires
        64 <= x < 80,
    ensures
        inv_sbox(sbox(x)) == x,
{
    assert(INV_SBOX[SBOX[64] as int] == 64);
    assert(INV_SBOX[SBOX[65] as int] == 65);
    assert(INV_SBOX[SBOX[66] as int] == 66);
    assert(INV_SBOX[SBOX[67] as int] == 67);
    assert(INV_SBOX[SBOX[68] as int] == 68);
    assert(INV_SBOX[SBOX[69] as int] == 69);
    assert(INV_SBOX[SBOX[70] as int] == 70);
    assert(INV_SBOX[SBOX[71] as int] == 71);
    assert(INV_SBOX[SBOX[72] as int] == 72);
    assert(INV_SBOX[SBOX[73] as int] == 73);
    assert(INV_SBOX[SBOX[74] as int] == 74);
    assert(INV_SBOX[SBOX[75] as int] == 75);
    assert(INV_SBOX[SBOX[76] as int] == 76);
    assert(INV_SBOX[SBOX[77] as int] == 77);
    assert(INV_SBOX[SBOX[78] as int] == 78);
    assert(INV_SBOX[SBOX[79] as int] == 79);
}

proof fn lemma_inv_sbox_5(x: u8)
    requires
        80 <= x < 96,
    ensures
        inv_sbox(sbox(x)) == x,
{
    assert(INV_SBOX[SBOX[80] as int] == 80);
    assert(INV_SBOX[SBOX[81] as int] == 81);
    assert(INV_SBOX[SBOX[82] as int] == 82);
    assert(INV_SBOX[SBOX[83] as int] == 83);
    assert(INV_SBOX[SBOX[84] as int] == 84);
    assert(INV_SBOX[SBOX[85] as int] == 85);
    assert(INV_SBOX[SBOX[86] as int] == 86);
    assert(INV_SBOX[SBOX[87] as int] == 87);
    assert(INV_SBOX[SBOX[88] as int] == 88);
    assert(INV_SBOX[SBOX[89] as int] == 89);
    assert(INV_SBOX[SBOX[90] as int] == 90);
    assert(INV_SBOX[SBOX[91] as int] == 91);
    assert(INV_SBOX[SBOX[92] as int] == 92);
    assert(INV_SBOX[SBOX[93] as int] == 93);
    assert(INV_SBOX[SBOX[94] as int] == 94);
    assert(INV_SBOX[SBOX[95] as int] == 95);
}

proof fn lemma_inv_sbox_6(x: u8)
    requires
        96 <= x < 112,
    ensures
        inv_sbox(sbox(x)) == x,
{
    assert(INV_SBOX[SBOX[96] as int] == 96);
    assert(INV_SBOX[SBOX[97] as int] == 97);
    assert(INV_SBOX[SBOX[98] as int] == 98);
    assert(INV_SBOX[SBOX[99] as int] == 99);
    assert(INV_SBOX[SBOX[100] as int] == 100);
    assert(INV_SBOX[SBOX[101] as int] == 101);
    assert(INV_SBOX[SBOX[102] as int] == 102);
    assert(INV_SBOX[SBOX[103] as int] == 103);
    assert(INV_SBOX[SBOX[104] as int] == 104);
    assert(INV_SBOX[SBOX[105] as int] == 105);
    assert(INV_SBOX[SBOX[106] as int] == 106);
    assert(INV_SBOX[SBOX[107] as int] == 107);
    assert(INV_SBOX[SBOX[108] as int] == 108);
    assert(INV_SBOX[SBOX[109] as int] == 109);
    assert(INV_SBOX[SBOX[110] as int] == 110);
    assert(INV_SBOX[SBOX[111] as int] == 111);
}

proof fn lemma_inv_sbox_7(x: u8)
    requires
        112 <= x < 128,
    ensures
        inv_sbox(sbox(x)) == x,
{
    assert(INV_SBOX[SBOX[112] as int] == 112);
    assert(INV_SBOX[SBOX[113] as int] == 113);
    assert(INV_SBOX[SBOX[114] as int] == 114);
    assert(INV_SBOX[SBOX[115] as int] == 115);
    assert(INV_SBOX[SBOX[116] as int] == 116);
    assert(INV_SBOX[SBOX[117] as int] == 117);
    assert(INV_SBOX[SBOX[118] as int] == 118);
    assert(INV_SBOX[SBOX[119] as int] == 119);
    assert(INV_SBOX[SBOX[120] as int] == 120);
    assert(INV_SBOX[SBOX[121] as int] == 121);
    assert(INV_SBOX[SBOX[122] as int] == 122);
    assert(INV_SBOX[SBOX[123] as int] == 123);
    assert(INV_SBOX[SBOX[124] as int] == 124);
    assert(INV_SBOX[SBOX[125] as int] == 125);
    assert(INV_SBOX[SBOX[126] as int] == 126);
    assert(INV_SBOX[SBOX[127] as int] == 127);
}

proof fn lemma_inv_sbox_8(x: u8)
    requires
        128 <= x < 144,
    ensures
        inv_sbox(sbox(x)) == x,
{
    assert(INV_SBOX[SBOX[128] as int] == 128);
    assert(INV_SBOX[SBOX[129] as int] == 129);
    assert(INV_SBOX[SBOX[130] as int] == 130);
    assert(INV_SBOX[SBOX[131] as int] == 131);
    assert(INV_SBOX[SBOX[132] as int] == 132);
    assert(INV_SBOX[SBOX[133] as int] == 133);
    assert(INV_SBOX[SBOX[134] as int] == 134);
    assert(INV_SBOX[SBOX[135] as int] == 135);
    assert(INV_SBOX[SBOX[136] as int] == 136);
    assert(INV_SBOX[SBOX[137] as int] == 137);
    assert(INV_SBOX[SBOX[138] as int] == 138);
    assert(INV_SBOX[SBOX[139] as int] == 139);
    assert(INV_SBOX[SBOX[140] as int] == 140);
    assert(INV_SBOX[SBOX[141] as int] == 141);
    assert(INV_SBOX[SBOX[142] as int] == 142);
    assert(INV_SBOX[SBOX[143] as int] == 143);
}

proof fn lemma_inv_sbox_9(x: u8)
    requires
        144 <= x < 160,
    ensures
        inv_sbox(sbox(x)) == x,
{
    assert(INV_SBOX[SBOX[144] as int] == 144);
    assert(INV_SBOX[SBOX[145] as int] == 145);
    assert(INV_SBOX[SBOX[146] as int] == 146);
    assert(INV_SBOX[SBOX[147] as int] == 147);
    assert(INV_SBOX[SBOX[148] as int] == 148);
    assert(INV_SBOX[SBOX[149] as int] == 149);
    assert(INV_SBOX[SBOX[150] as int] == 150);
    assert(INV_SBOX[SBOX[151] as int] == 151);
    assert(INV_SBOX[SBOX[152] as int] == 152);
    assert(INV_SBOX[SBOX[153] as int] == 153);
    assert(INV_SBOX[SBOX[154] as int] == 154);
    assert(INV_SBOX[SBOX[155] as int] == 155);
    assert(INV_SBOX[SBOX[156] as int] == 156);
    assert(INV_SBOX[SBOX[157] as int] == 157);
    assert(INV_SBOX[SBOX[158] as int] == 158);
    assert(INV_SBOX[SBOX[159] as int] == 159);
}

proof fn lemma_inv_sbox_a(x: u8)
    requires
        160 <= x < 176,
    ensures
        inv_sbox(sbox(x)) == x,
{
    assert(INV_SBOX[SBOX[160] as int] == 160);
    assert(INV_SBOX[SBOX[161] as int] == 161);
    assert(INV_SBOX[SBOX[162] as int] == 162);
    assert(INV_SBOX[SBOX[163] as int] == 163);
    assert(INV_SBOX[SBOX[164] as int] == 164);
    assert(INV_SBOX[SBOX[165] as int] == 165);
    assert(INV_SBOX[SBOX[166] as int] == 166);
    assert(INV_SBOX[SBOX[167] as int] == 167);
    assert(INV_SBOX[SBOX[168] as int] == 168);
    assert(INV_SBOX[SBOX[169] as int] == 169);
    assert(INV_SBOX[SBOX[170] as int] == 170);
    assert(INV_SBOX[SBOX[171] as int] == 171);
    assert(INV_SBOX[SBOX[172] as int] == 172);
    assert(INV_SBOX[SBOX[173] as int] == 173);
    assert(INV_SBOX[SBOX[174] as int] == 174);
    assert(INV_SBOX[SBOX[175] as int] == 175);
}

proof fn lemma_inv_sbox_b(x: u8)
    requires
        176 <= x < 192,
    ensures
        inv_sbox(sbox(x)) == x,
{
    assert(INV_SBOX[SBOX[176] as int] == 176);
    assert(INV_SBOX[SBOX[177] as int] == 177);
    assert(INV_SBOX[SBOX[178] as int] == 178);
    assert(INV_SBOX[SBOX[179] as int] == 179);
    assert(INV_SBOX[SBOX[180] as int] == 180);
    assert(INV_SBOX[SBOX[181] as int] == 181);
    assert(INV_SBOX[SBOX[182] as int] == 182);
    assert(INV_SBOX[SBOX[183] as int] == 183);
    assert(INV_SBOX[SBOX[184] as int] == 184);
    assert(INV_SBOX[SBOX[185] as int] == 185);
    assert(INV_SBOX[SBOX[186] as int] == 186);
    assert(INV_SBOX[SBOX[187] as int] == 187);
    assert(INV_SBOX[SBOX[188] as int] == 188);
    assert(INV_SBOX[SBOX[189] as int] == 189);
    assert(INV_SBOX[SBOX[190] as int] == 190);
    assert(INV_SBOX[SBOX[191] as int] == 191);
}

proof fn lemma_inv_sbox_c(x: u8)
    requires
        192 <= x < 208,
    ensures
        inv_sbox(sbox(x)) == x,
{
    assert(INV_SBOX[SBOX[192] as int] == 192);
    assert(INV_SBOX[SBOX[193] as int] == 193);
    assert(INV_SBOX[SBOX[194] as int] == 194);
    assert(INV_SBOX[SBOX[195] as int] == 195);
    assert(INV_SBOX[SBOX[196] as int] == 196);
    assert(INV_SBOX[SBOX[197] as int] == 197);
    assert(INV_SBOX[SBOX[198] as int] == 198);
    assert(INV_SBOX[SBOX[199] as int] == 199);
    assert(INV_SBOX[SBOX[200] as int] == 200);
    assert(INV_SBOX[SBOX[201] as int] == 201);
    assert(INV_SBOX[SBOX[202] as int] == 202);
    assert(INV_SBOX[SBOX[203] as int] == 203);
    assert(INV_SBOX[SBOX[204] as int] == 204);
    assert(INV_SBOX[SBOX[205] as int] == 205);
    assert(INV_SBOX[SBOX[206] as int] == 206);
    assert(INV_SBOX[SBOX[207] as int] == 207);
}

proof fn lemma_inv_sbox_d(x: u8)
    requires
        208 <= x < 224,
    ensures
        inv_sbox(sbox(x)) == x,
{
    assert(INV_SBOX[SBOX[208] as int] == 208);
    assert(INV_SBOX[SBOX[209] as int] == 209);
    assert(INV_SBOX[SBOX[210] as int] == 210);
    assert(INV_SBOX[SBOX[211] as int] == 211);
    assert(INV_SBOX[SBOX[212] as int] == 212);
    assert(INV_SBOX[SBOX[213] as int] == 213);
    assert(INV_SBOX[SBOX[214] as int] == 214);
    assert(INV_SBOX[SBOX[215] as int] == 215);
    assert(INV_SBOX[SBOX[216] as int] == 216);
    assert(INV_SBOX[SBOX[217] as int] == 217);
    assert(INV_SBOX[SBOX[218] as int] == 218);
    assert(INV_SBOX[SBOX[219] as int] == 219);
    assert(INV_SBOX[SBOX[220] as int] == 220);
    assert(INV_SBOX[SBOX[221] as int] == 221);
    assert(INV_SBOX[SBOX[222] as int] == 222);
    assert(INV_SBOX[SBOX[223] as int] == 223);
}

proof fn lemma_inv_sbox_e(x: u8)
    requires
        224 <= x < 240,
    ensures
        inv_sbox(sbox(x)) == x,
{
    assert(INV_SBOX[SBOX[224] as int] == 224);
    assert(INV_SBOX[SBOX[225] as int] == 225);
    assert(INV_SBOX[SBOX[226] as int] == 226);
    assert(INV_SBOX[SBOX[227] as int] == 227);
    assert(INV_SBOX[SBOX[228] as int] == 228);
    assert(INV_SBOX[SBOX[229] as int] == 229);
    assert(INV_SBOX[SBOX[230] as int] == 230);
    assert(INV_SBOX[SBOX[231] as int] == 231);
    assert(INV_SBOX[SBOX[232] as int] == 232);
    assert(INV_SBOX[SBOX[233] as int] == 233);
    assert(INV_SBOX[SBOX[234] as int] == 234);
    assert(INV_SBOX[SBOX[235] as int] == 235);
    assert(INV_SBOX[SBOX[236] as int] == 236);
    assert(INV_SBOX[SBOX[237] as int] == 237);
    assert(INV_SBOX[SBOX[238] as int] == 238);
    assert(INV_SBOX[SBOX[239] as int] == 239);
}

proof fn lemma_inv_sbox_f(x: u8)
    requires
        240 <= x < 256,
    ensures
        inv_sbox(sbox(x)) == x,
{
    assert(INV_SBOX[SBOX[240] as int] == 240);
    assert(INV_SBOX[SBOX[241] as int] == 241);
    assert(INV_SBOX[SBOX[242] as int] == 242);
    assert(INV_SBOX[SBOX[243] as int] == 243);
    assert(INV_SBOX[SBOX[244] as int] == 244);
    assert(INV_SBOX[SBOX[245] as int] == 245);
    assert(INV_SBOX[SBOX[246] as int] == 246);
    assert(INV_SBOX[SBOX[247] as int] == 247);
    assert(INV_SBOX[SBOX[248] as int] == 248);
    assert(INV_SBOX[SBOX[249] as int] == 249);
    assert(INV_SBOX[SBOX[250] as int] == 250);
    assert(INV_SBOX[SBOX[251] as int] == 251);
    assert(INV_SBOX[SBOX[252] as int] == 252);
    assert(INV_SBOX[SBOX[253] as int] == 253);
    assert(INV_SBOX[SBOX[254] as int] == 254);
    assert(INV_SBOX[SBOX[255] as int] == 255);
}

/// The inverse substitution table undoes the substitution table.
pub proof fn lemma_inv_sbox(x: u8)
    ensures
        inv_sbox(sbox(x)) == x,
{
    if x < 16 {
        lemma_inv_sbox_0(x);
    } else if x < 32 {
        lemma_inv_sbox_1(x);
    } else if x < 48 {
        lemma_inv_sbox_2(x);
    } else if x < 64 {
        lemma_inv_sbox_3(x);
    } else if x < 80 {
        lemma_inv_sbox_4(x);
    } else if x < 96 {
        lemma_inv_sbox_5(x);
    } else if x < 112 {
        lemma_inv_sbox_6(x);
    } else if x < 128 {
        lemma_inv_sbox_7(x);
    } else if x < 144 {
        lemma_inv_sbox_8(x);
    } else if x < 160 {
        lemma_inv_sbox_9(x);
    } else if x < 176 {
        lemma_inv_sbox_a(x);
    } else if x < 192 {
        lemma_inv_sbox_b(x);
    } else if x < 208 {
        lemma_inv_sbox_c(x);
    } else if x < 224 {
        lemma_inv_sbox_d(x);
    } else if x < 240 {
        lemma_inv_sbox_e(x);
    } else {
        lemma_inv_sbox_f(x);
    }
}

/// Substituting back undoes substituting, byte by byte.
pub proof fn lemma_sub_bytes_inverse(s: Seq<u8>)
    requires
        s.len() == 16,
    ensures
        inv_sub_bytes_spec(sub_bytes_spec(s)) == s,
{
    reveal(sub_bytes_spec);
    reveal(inv_sub_bytes_spec);
    assert forall|i: int| 0 <= i < 16 implies inv_sub_bytes_spec(sub_bytes_spec(s))[i] == s[i] by {
        lemma_inv_sbox(s[i]);
    }
    assert(inv_sub_bytes_spec(sub_bytes_spec(s)) =~= s);
}

/// Shifting the rows back undoes shifting them.
pub proof fn lemma_shift_rows_inverse(s: Seq<u8>)
    requires
        s.len() == 16,
    ensures
        inv_shift_rows_spec(shift_rows_spec(s)) == s,
{
    reveal(shift_rows_spec);
    reveal(inv_shift_rows_spec);
    assert forall|i: int| 0 <= i < 16 implies inv_shift_rows_spec(shift_rows_spec(s))[i]
        == s[i] by {
        let j = i % 4 + 4 * ((i / 4 + 4 - i % 4) % 4);
        assert(0 <= j < 16);
        assert(j % 4 + 4 * ((j / 4 + j % 4) % 4) == i);
    }
    assert(inv_shift_rows_spec(shift_rows_spec(s)) =~= s);
}

/// Adding a round key twice gives the block back.
pub proof fn lemma_xor_block_twice(s: Seq<u8>, k: Seq<u8>)
    requires
        s.len() == 16,
        k.len() >= 16,
    ensures
        xor_block(xor_block(s, k), k) == s,
{
    reveal(xor_block);
    assert forall|i: int| 0 <= i < 16 implies xor_block(xor_block(s, k), k)[i] == s[i] by {
        let a = s[i];
        let b = k[i];
        assert((a ^ b) ^ b == a) by (bit_vector);
    }
    assert(xor_block(xor_block(s, k), k) =~= s);
}

/// The products of a byte with the entries of the two mixing matrices, in
/// terms of multiplication by `x`.
pub open spec fn times_1(b: u8) -> u8 {
    b ^ 0
}

pub open spec fn times_2(b: u8) -> u8 {
    xtime(b) ^ 0
}

pub open spec fn times_3(b: u8) -> u8 {
    b ^ (xtime(b) ^ 0)
}

pub open spec fn times_9(b: u8) -> u8 {
    b ^ (xtime(xtime(xtime(b))) ^ 0)
}

pub open spec fn times_11(b: u8) -> u8 {
    b ^ (xtime(b) ^ (xtime(xtime(xtime(b))) ^ 0))
}

pub open spec fn times_13(b: u8) -> u8 {
    b ^ (xtime(xtime(b)) ^ (xtime(xtime(xtime(b))) ^ 0))
}

pub open spec fn times_14(b: u8) -> u8 {
    xtime(b) ^ (xtime(xtime(b)) ^ (xtime(xtime(xtime(b))) ^ 0))
}

/// The products with the matrix entries, unfolded.
pub proof fn lemma_matrix_products(b: u8)
    ensures
        gf_mul(1, b) == times_1(b),
        gf_mul(2, b) == times_2(b),
        gf_mul(3, b) == times_3(b),
        gf_mul(9, b) == times_9(b),
        gf_mul(11, b) == times_11(b),
        gf_mul(13, b) == times_13(b),
        gf_mul(14, b) == times_14(b),
{
    reveal_with_fuel(gf_mul, 6);
}

/// Multiplication by 9 distributes over the sum of two bytes.
proof fn lemma_times_9_of_sum(x: u8, y: u8)
    by (bit_vector)
    ensures
        times_9(x ^ y) == times_9(x) ^ times_9(y),
{
}

/// Multiplication by 9 distributes over the sum of four bytes.
proof fn lemma_times_9_of_four(x0: u8, x1: u8, x2: u8, x3: u8)
    ensures
        times_9(x0 ^ x1 ^ x2 ^ x3) == times_9(x0) ^ times_9(x1) ^ times_9(x2) ^ times_9(x3),
{
    lemma_times_9_of_sum(x0 ^ x1 ^ x2, x3);
    lemma_times_9_of_sum(x0 ^ x1, x2);
    lemma_times_9_of_sum(x0, x1);
}

/// Multiplication by 11 distributes over the sum of two bytes.
proof fn lemma_times_11_of_sum(x: u8, y: u8)
    by (bit_vector)
    ensures
        times_11(x ^ y) == times_11(x) ^ times_11(y),
{
}

/// Multiplication by 11 distributes over the sum of four bytes.
proof fn lemma_times_11_of_four(x0: u8, x1: u8, x2: u8, x3: u8)
    ensures
        times_11(x0 ^ x1 ^ x2 ^ x3) == times_11(x0) ^ times_11(x1) ^ times_11(x2) ^ times_11(x3),
{
    lemma_times_11_of_sum(x0 ^ x1 ^ x2, x3);
    lemma_times_11_of_sum(x0 ^ x1, x2);
    lemma_times_11_of_sum(x0, x1);
}

/// Multiplication by 13 distributes over the sum of two bytes.
proof fn lemma_times_13_of_sum(x: u8, y: u8)
    by (bit_vector)
    ensures
        times_13(x ^ y) == times_13(x) ^ times_13(y),
{
}

/// Multiplication by 13 distributes over the sum of four bytes.
proof fn lemma_times_13_of_four(x0: u8, x1: u8, x2: u8, x3: u8)
    ensures
        times_13(x0 ^ x1 ^ x2 ^ x3) == times_13(x0) ^ times_13(x1) ^ times_13(x2) ^ times_13(x3),
{
    lemma_times_13_of_sum(x0 ^ x1 ^ x2, x3);
    lemma_times_13_of_sum(x0 ^ x1, x2);
    lemma_times_13_of_sum(x0, x1);
}

/// Multiplication by 14 distributes over the sum of two bytes.
proof fn lemma_times_14_of_sum(x: u8, y: u8)
    by (bit_vector)
    ensures
        times_14(x ^ y) == times_14(x) ^ times_14(y),
{
}

/// Multiplication by 14 distributes over the sum of four bytes.
proof fn lemma_times_14_of_four(x0: u8, x1: u8, x2: u8, x3: u8)
    ensures
        times_14(x0 ^ x1 ^ x2 ^ x3) == times_14(x0) ^ times_14(x1) ^ times_14(x2) ^ times_14(x3),
{
    lemma_times_14_of_sum(x0 ^ x1 ^ x2, x3);
    lemma_times_14_of_sum(x0 ^ x1, x2);
    lemma_times_14_of_sum(x0, x1);
}

/// The two mixing matrices are inverse to each other: row `r` of the one
/// times column `j` of the other, applied to a byte, gives the byte where
/// `r` is `j` and zero elsewhere.
proof fn lemma_matrix_inverse(a: u8)
    by (bit_vector)
    ensures
        times_14(times_2(a)) ^ times_11(times_1(a)) ^ times_13(times_1(a)) ^ times_9(times_3(a)) == a,
        times_14(times_3(a)) ^ times_11(times_2(a)) ^ times_13(times_1(a)) ^ times_9(times_1(a)) == 0,
        times_14(times_1(a)) ^ times_11(times_3(a)) ^ times_13(times_2(a)) ^ times_9(times_1(a)) == 0,
        times_14(times_1(a)) ^ times_11(times_1(a)) ^ times_13(times_3(a)) ^ times_9(times_2(a)) == 0,
        times_9(times_2(a)) ^ times_14(times_1(a)) ^ times_11(times_1(a)) ^ times_13(times_3(a)) == 0,
        times_9(times_3(a)) ^ times_14(times_2(a)) ^ times_11(times_1(a)) ^ times_13(times_1(a)) == a,
        times_9(times_1(a)) ^ times_14(times_3(a)) ^ times_11(times_2(a)) ^ times_13(times_1(a)) == 0,
        times_9(times_1(a)) ^ times_14(times_1(a)) ^ times_11(times_3(a)) ^ times_13(times_2(a)) == 0,
        times_13(times_2(a)) ^ times_9(times_1(a)) ^ times_14(times_1(a)) ^ times_11(times_3(a)) == 0,
        times_13(times_3(a)) ^ times_9(times_2(a)) ^ times_14(times_1(a)) ^ times_11(times_1(a)) == 0,
        times_13(times_1(a)) ^ times_9(times_3(a)) ^ times_14(times_2(a)) ^ times_11(times_1(a)) == a,
        times_13(times_1(a)) ^ times_9(times_1(a)) ^ times_14(times_3(a)) ^ times_11(times_2(a)) == 0,
        times_11(times_2(a)) ^ times_13(times_1(a)) ^ times_9(times_1(a)) ^ times_14(times_3(a)) == 0,
        times_11(times_3(a)) ^ times_13(times_2(a)) ^ times_9(times_1(a)) ^ times_14(times_1(a)) == 0,
        times_11(times_1(a)) ^ times_13(times_3(a)) ^ times_9(times_2(a)) ^ times_14(times_1(a)) == 0,
        times_11(times_1(a)) ^ times_13(times_1(a)) ^ times_9(times_3(a)) ^ times_14(times_2(a)) == a,
{
}

/// The sum of sixteen bytes does not depend on whether they are added row
/// by row or column by column.
proof fn lemma_sum_by_columns(
    u00: u8,
    u01: u8,
    u02: u8,
    u03: u8,
    u10: u8,
    u11: u8,
    u12: u8,
    u13: u8,
    u20: u8,
    u21: u8,
    u22: u8,
    u23: u8,
    u30: u8,
    u31: u8,
    u32: u8,
    u33: u8,
)
    by (bit_vector)
    ensures
        (u00 ^ u01 ^ u02 ^ u03) ^ (u10 ^ u11 ^ u12 ^ u13) ^ (u20 ^ u21 ^ u22 ^ u23) ^ (u30 ^ u31 ^ u32 ^ u33) == (u00 ^ u10 ^ u20 ^ u30) ^ (u01 ^ u11 ^ u21 ^ u31) ^ (u02 ^ u12 ^ u22 ^ u32) ^ (u03 ^ u13 ^ u23 ^ u33),
{
}

/// One column mixed and mixed back: each of the four bytes returns.
proof fn lemma_column_inverse(a0: u8, a1: u8, a2: u8, a3: u8)
    ensures
        ({
            let m0 = times_2(a0) ^ times_3(a1) ^ times_1(a2) ^ times_1(a3);
            let m1 = times_1(a0) ^ times_2(a1) ^ times_3(a2) ^ times_1(a3);
            let m2 = times_1(a0) ^ times_1(a1) ^ times_2(a2) ^ times_3(a3);
            let m3 = times_3(a0) ^ times_1(a1) ^ times_1(a2) ^ times_2(a3);
            &&& times_14(m0) ^ times_11(m1) ^ times_13(m2) ^ times_9(m3) == a0
            &&& times_9(m0) ^ times_14(m1) ^ times_11(m2) ^ times_13(m3) == a1
            &&& times_13(m0) ^ times_9(m1) ^ times_14(m2) ^ times_11(m3) == a2
            &&& times_11(m0) ^ times_13(m1) ^ times_9(m2) ^ times_14(m3) == a3
        }),
{
    lemma_matrix_inverse(a0);
    lemma_matrix_inverse(a1);
    lemma_matrix_inverse(a2);
    lemma_matrix_inverse(a3);
    assert(a0 ^ 0u8 ^ 0u8 ^ 0u8 == a0 && 0u8 ^ a1 ^ 0u8 ^ 0u8 == a1 && 0u8 ^ 0u8 ^ a2 ^ 0u8 == a2
        && 0u8 ^ 0u8 ^ 0u8 ^ a3 == a3) by (bit_vector);
    lemma_times_14_of_four(times_2(a0), times_3(a1), times_1(a2), times_1(a3));
    lemma_times_11_of_four(times_1(a0), times_2(a1), times_3(a2), times_1(a3));
    lemma_times_13_of_four(times_1(a0), times_1(a1), times_2(a2), times_3(a3));
    lemma_times_9_of_four(times_3(a0), times_1(a1), times_1(a2), times_2(a3));
    lemma_sum_by_columns(
        times_14(times_2(a0)),
        times_14(times_3(a1)),
        times_14(times_1(a2)),
        times_14(times_1(a3)),
        times_11(times_1(a0)),
        times_11(times_2(a1)),
        times_11(times_3(a2)),
        times_11(times_1(a3)),
        times_13(times_1(a0)),
        times_13(times_1(a1)),
        times_13(times_2(a2)),
        times_13(times_3(a3)),
        times_9(times_3(a0)),
        times_9(times_1(a1)),
        times_9(times_1(a2)),
        times_9(times_2(a3)),
    );
    lemma_times_9_of_four(times_2(a0), times_3(a1), times_1(a2), times_1(a3));
    lemma_times_14_of_four(times_1(a0), times_2(a1), times_3(a2), times_1(a3));
    lemma_times_11_of_four(times_1(a0), times_1(a1), times_2(a2), times_3(a3));
    lemma_times_13_of_four(times_3(a0), times_1(a1), times_1(a2), times_2(a3));
    lemma_sum_by_columns(
        times_9(times_2(a0)),
        times_9(times_3(a1)),
        times_9(times_1(a2)),
        times_9(times_1(a3)),
        times_14(times_1(a0)),
        times_14(times_2(a1)),
        times_14(times_3(a2)),
        times_14(times_1(a3)),
        times_11(times_1(a0)),
        times_11(times_1(a1)),
        times_11(times_2(a2)),
        times_11(times_3(a3)),
        times_13(times_3(a0)),
        times_13(times_1(a1)),
        times_13(times_1(a2)),
        times_13(times_2(a3)),
    );
    lemma_times_13_of_four(times_2(a0), times_3(a1), times_1(a2), times_1(a3));
    lemma_times_9_of_four(times_1(a0), times_2(a1), times_3(a2), times_1(a3));
    lemma_times_14_of_four(times_1(a0), times_1(a1), times_2(a2), times_3(a3));
    lemma_times_11_of_four(times_3(a0), times_1(a1), times_1(a2), times_2(a3));
    lemma_sum_by_columns(
        times_13(times_2(a0)),
        times_13(times_3(a1)),
        times_13(times_1(a2)),
        times_13(times_1(a3)),
        times_9(times_1(a0)),
        times_9(times_2(a1)),
        times_9(times_3(a2)),
        times_9(times_1(a3)),
        times_14(times_1(a0)),
        times_14(times_1(a1)),
        times_14(times_2(a2)),
        times_14(times_3(a3)),
        times_11(times_3(a0)),
        times_11(times_1(a1)),
        times_11(times_1(a2)),
        times_11(times_2(a3)),
    );
    lemma_times_11_of_four(times_2(a0), times_3(a1), times_1(a2), times_1(a3));
    lemma_times_13_of_four(times_1(a0), times_2(a1), times_3(a2), times_1(a3));
    lemma_times_9_of_four(times_1(a0), times_1(a1), times_2(a2), times_3(a3));
    lemma_times_14_of_four(times_3(a0), times_1(a1), times_1(a2), times_2(a3));
    lemma_sum_by_columns(
        times_11(times_2(a0)),
        times_11(times_3(a1)),
        times_11(times_1(a2)),
        times_11(times_1(a3)),
        times_13(times_1(a0)),
        times_13(times_2(a1)),
        times_13(times_3(a2)),
        times_13(times_1(a3)),
        times_9(times_1(a0)),
        times_9(times_1(a1)),
        times_9(times_2(a2)),
        times_9(times_3(a3)),
        times_14(times_3(a0)),
        times_14(times_1(a1)),
        times_14(times_1(a2)),
        times_14(times_2(a3)),
    );
}

/// Mixing the columns back undoes mixing them.
pub proof fn lemma_mix_columns_inverse(s: Seq<u8>)
    requires
        s.len() == 16,
    ensures
        inv_mix_columns_spec(mix_columns_spec(s)) == s,
{
    reveal(mix_spec);
    let m = mix_columns_spec(s);
    assert forall|i: int| 0 <= i < 16 implies inv_mix_columns_spec(m)[i] == s[i] by {
        let c = i / 4;
        let a0 = s[4 * c];
        let a1 = s[4 * c + 1];
        let a2 = s[4 * c + 2];
        let a3 = s[4 * c + 3];
        lemma_matrix_products(a0);
        lemma_matrix_products(a1);
        lemma_matrix_products(a2);
        lemma_matrix_products(a3);
        assert(m[4 * c] == mixed_cell(CMDS, s, 0, c));
        assert(m[4 * c + 1] == mixed_cell(CMDS, s, 1, c));
        assert(m[4 * c + 2] == mixed_cell(CMDS, s, 2, c));
        assert(m[4 * c + 3] == mixed_cell(CMDS, s, 3, c));
        lemma_matrix_products(m[4 * c]);
        lemma_matrix_products(m[4 * c + 1]);
        lemma_matrix_products(m[4 * c + 2]);
        lemma_matrix_products(m[4 * c + 3]);
        lemma_column_inverse(a0, a1, a2, a3);
    }
    assert(inv_mix_columns_spec(m) =~= s);
}

/// What the inverse cipher holds once the rounds down to `round` are undone
/// is what the cipher held before the key of that round was added.
proof fn lemma_rounds_undone(block: Seq<u8>, w: Seq<u8>, round: int)
    requires
        block.len() == 16,
        w.len() >= 32,
        1 <= round <= rounds_of(w),
    ensures
        inv_cipher_rounds(cipher(block, w), w, round) == shift_rows_spec(
            sub_bytes_spec(cipher_rounds(block, w, (round - 1) as nat)),
        ),
    decreases rounds_of(w) - round,
{
    let nr = rounds_of(w);
    lemma_block_sizes(block, w, (round - 1) as nat);
    if round == nr {
        let before = shift_rows_spec(sub_bytes_spec(cipher_rounds(block, w, (nr - 1) as nat)));
        lemma_xor_block_twice(before, round_key_at(w, nr));
    } else {
        lemma_rounds_undone(block, w, round + 1);
        lemma_block_sizes(block, w, round as nat);
        let s = cipher_rounds(block, w, round as nat);
        lemma_shift_rows_inverse(sub_bytes_spec(s));
        lemma_sub_bytes_inverse(s);
        let mixed = mix_columns_spec(
            shift_rows_spec(sub_bytes_spec(cipher_rounds(block, w, (round - 1) as nat))),
        );
        lemma_xor_block_twice(mixed, round_key_at(w, round));
        lemma_mix_columns_inverse(
            shift_rows_spec(sub_bytes_spec(cipher_rounds(block, w, (round - 1) as nat))),
        );
    }
}

/// Every state of the cipher has sixteen bytes.
proof fn lemma_block_sizes(block: Seq<u8>, w: Seq<u8>, n: nat)
    requires
        w.len() >= 32,
        n < rounds_of(w),
    ensures
        cipher_rounds(block, w, n).len() == 16,
        sub_bytes_spec(cipher_rounds(block, w, n)).len() == 16,
        shift_rows_spec(sub_bytes_spec(cipher_rounds(block, w, n))).len() == 16,
        mix_columns_spec(shift_rows_spec(sub_bytes_spec(cipher_rounds(block, w, n)))).len() == 16,
        round_key_at(w, n as int).len() == 16,
        round_key_at(w, (n + 1) as int).len() == 16,
{
    reveal(xor_block);
    reveal(sub_bytes_spec);
    reveal(shift_rows_spec);
    reveal(mix_spec);
}

/// Decryption undoes encryption: under any key schedule of at least two
/// round keys, the inverse cipher applied to the cipher of a block gives the
/// block back.
pub proof fn lemma_decrypt_inverts_encrypt(block: Seq<u8>, w: Seq<u8>)
    requires
        block.len() == 16,
        w.len() >= 32,
    ensures
        inv_cipher(cipher(block, w), w) == block,
{
    lemma_rounds_undone(block, w, 1);
    lemma_block_sizes(block, w, 0);
    let s = cipher_rounds(block, w, 0);
    lemma_shift_rows_inverse(sub_bytes_spec(s));
    lemma_sub_bytes_inverse(s);
    lemma_xor_block_twice(block, round_key_at(w, 0));
}

/// Decrypting a block of a buffer in place after encrypting it in place
/// gives the buffer back.
pub proof fn lemma_block_round_trip(s: Seq<u8>, at: int, w: Seq<u8>)
    requires
        0 <= at,
        at + 16 <= s.len(),
        w.len() >= 32,
    ensures
        ({
            let sealed = with_block(s, at, cipher(s.subrange(at, at + 16), w));
            with_block(sealed, at, inv_cipher(sealed.subrange(at, at + 16), w)) == s
        }),
{
    reveal(xor_block);
    let block = s.subrange(at, at + 16);
    let sealed = with_block(s, at, cipher(block, w));
    lemma_decrypt_inverts_encrypt(block, w);
    assert(sealed.subrange(at, at + 16) =~= cipher(block, w));
    assert(with_block(sealed, at, block) =~= s);
}

} // verus!
