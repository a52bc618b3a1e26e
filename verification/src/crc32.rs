//! CRC-32 checksum (IEEE 802.3 polynomial, reflected), as ZIP archives use it.
//!
//! The model is the bit-at-a-time definition: each byte is XORed into the low
//! bits of the register, which is then shifted right eight times, folding in the
//! polynomial whenever a one falls out. The executable code uses a 256-entry
//! lookup table, and the proofs below show the table holds exactly the
//! eight-shift images of the bytes.

use vstd::prelude::*;

verus! {

/// One step of the reflected CRC-32 division: shift right by one bit and fold
/// in the polynomial `0xEDB88320` when the bit shifted out is set.
pub open spec fn crc_shift(c: u32) -> u32 {
    if c & 1 == 1 {
        (c >> 1) ^ 0xEDB8_8320u32
    } else {
        c >> 1
    }
}

/// Eight steps of [`crc_shift`]: the processing of one byte's worth of bits.
pub open spec fn crc_shift8(c: u32) -> u32 {
    crc_shift(crc_shift(crc_shift(crc_shift(crc_shift(crc_shift(crc_shift(crc_shift(c))))))))
}

/// The register after one more byte has been fed to it.
pub open spec fn crc_byte(register: u32, byte: u8) -> u32 {
    crc_shift8(register ^ (byte as u32))
}

/// The register after the bytes of `data` have been fed to it, first to last.
pub open spec fn crc_register(register: u32, data: Seq<u8>) -> u32
    decreases data.len(),
{
    if data.len() == 0 {
        register
    } else {
        crc_byte(crc_register(register, data.drop_last()), data.last())
    }
}

/// The CRC-32 of `data`: the register starts with all bits set and the result
/// is its complement.
pub open spec fn crc32(data: Seq<u8>) -> u32 {
    !crc_register(0xFFFF_FFFFu32, data)
}

/// `TABLE[n]` is the register contribution of byte value `n`.
const TABLE: [u32; 256] = [
    0x00000000, 0x77073096, 0xEE0E612C, 0x990951BA, 0x076DC419, 0x706AF48F, 0xE963A535,
    0x9E6495A3, 0x0EDB8832, 0x79DCB8A4, 0xE0D5E91E, 0x97D2D988, 0x09B64C2B, 0x7EB17CBD,
    0xE7B82D07, 0x90BF1D91, 0x1DB71064, 0x6AB020F2, 0xF3B97148, 0x84BE41DE, 0x1ADAD47D,
    0x6DDDE4EB, 0xF4D4B551, 0x83D385C7, 0x136C9856, 0x646BA8C0, 0xFD62F97A, 0x8A65C9EC,
    0x14015C4F, 0x63066CD9, 0xFA0F3D63, 0x8D080DF5, 0x3B6E20C8, 0x4C69105E, 0xD56041E4,
    0xA2677172, 0x3C03E4D1, 0x4B04D447, 0xD20D85FD, 0xA50AB56B, 0x35B5A8FA, 0x42B2986C,
    0xDBBBC9D6, 0xACBCF940, 0x32D86CE3, 0x45DF5C75, 0xDCD60DCF, 0xABD13D59, 0x26D930AC,
    0x51DE003A, 0xC8D75180, 0xBFD06116, 0x21B4F4B5, 0x56B3C423, 0xCFBA9599, 0xB8BDA50F,
    0x2802B89E, 0x5F058808, 0xC60CD9B2, 0xB10BE924, 0x2F6F7C87, 0x58684C11, 0xC1611DAB,
    0xB6662D3D, 0x76DC4190, 0x01DB7106, 0x98D220BC, 0xEFD5102A, 0x71B18589, 0x06B6B51F,
    0x9FBFE4A5, 0xE8B8D433, 0x7807C9A2, 0x0F00F934, 0x9609A88E, 0xE10E9818, 0x7F6A0DBB,
    0x086D3D2D, 0x91646C97, 0xE6635C01, 0x6B6B51F4, 0x1C6C6162, 0x856530D8, 0xF262004E,
    0x6C0695ED, 0x1B01A57B, 0x8208F4C1, 0xF50FC457, 0x65B0D9C6, 0x12B7E950, 0x8BBEB8EA,
    0xFCB9887C, 0x62DD1DDF, 0x15DA2D49, 0x8CD37CF3, 0xFBD44C65, 0x4DB26158, 0x3AB551CE,
    0xA3BC0074, 0xD4BB30E2, 0x4ADFA541, 0x3DD895D7, 0xA4D1C46D, 0xD3D6F4FB, 0x4369E96A,
    0x346ED9FC, 0xAD678846, 0xDA60B8D0, 0x44042D73, 0x33031DE5, 0xAA0A4C5F, 0xDD0D7CC9,
    0x5005713C, 0x270241AA, 0xBE0B1010, 0xC90C2086, 0x5768B525, 0x206F85B3, 0xB966D409,
    0xCE61E49F, 0x5EDEF90E, 0x29D9C998, 0xB0D09822, 0xC7D7A8B4, 0x59B33D17, 0x2EB40D81,
    0xB7BD5C3B, 0xC0BA6CAD, 0xEDB88320, 0x9ABFB3B6, 0x03B6E20C, 0x74B1D29A, 0xEAD54739,
    0x9DD277AF, 0x04DB2615, 0x73DC1683, 0xE3630B12, 0x94643B84, 0x0D6D6A3E, 0x7A6A5AA8,
    0xE40ECF0B, 0x9309FF9D, 0x0A00AE27, 0x7D079EB1, 0xF00F9344, 0x8708A3D2, 0x1E01F268,
    0x6906C2FE, 0xF762575D, 0x806567CB, 0x196C3671, 0x6E6B06E7, 0xFED41B76, 0x89D32BE0,
    0x10DA7A5A, 0x67DD4ACC, 0xF9B9DF6F, 0x8EBEEFF9, 0x17B7BE43, 0x60B08ED5, 0xD6D6A3E8,
    0xA1D1937E, 0x38D8C2C4, 0x4FDFF252, 0xD1BB67F1, 0xA6BC5767, 0x3FB506DD, 0x48B2364B,
    0xD80D2BDA, 0xAF0A1B4C, 0x36034AF6, 0x41047A60, 0xDF60EFC3, 0xA867DF55, 0x316E8EEF,
    0x4669BE79, 0xCB61B38C, 0xBC66831A, 0x256FD2A0, 0x5268E236, 0xCC0C7795, 0xBB0B4703,
    0x220216B9, 0x5505262F, 0xC5BA3BBE, 0xB2BD0B28, 0x2BB45A92, 0x5CB36A04, 0xC2D7FFA7,
    0xB5D0CF31, 0x2CD99E8B, 0x5BDEAE1D, 0x9B64C2B0, 0xEC63F226, 0x756AA39C, 0x026D930A,
    0x9C0906A9, 0xEB0E363F, 0x72076785, 0x05005713, 0x95BF4A82, 0xE2B87A14, 0x7BB12BAE,
    0x0CB61B38, 0x92D28E9B, 0xE5D5BE0D, 0x7CDCEFB7, 0x0BDBDF21, 0x86D3D2D4, 0xF1D4E242,
    0x68DDB3F8, 0x1FDA836E, 0x81BE16CD, 0xF6B9265B, 0x6FB077E1, 0x18B74777, 0x88085AE6,
    0xFF0F6A70, 0x66063BCA, 0x11010B5C, 0x8F659EFF, 0xF862AE69, 0x616BFFD3, 0x166CCF45,
    0xA00AE278, 0xD70DD2EE, 0x4E048354, 0x3903B3C2, 0xA7672661, 0xD06016F7, 0x4969474D,
    0x3E6E77DB, 0xAED16A4A, 0xD9D65ADC, 0x40DF0B66, 0x37D83BF0, 0xA9BCAE53, 0xDEBB9EC5,
    0x47B2CF7F, 0x30B5FFE9, 0xBDBDF21C, 0xCABAC28A, 0x53B39330, 0x24B4A3A6, 0xBAD03605,
    0xCDD70693, 0x54DE5729, 0x23D967BF, 0xB3667A2E, 0xC4614AB8, 0x5D681B02, 0x2A6F2B94,
    0xB40BBE37, 0xC30C8EA1, 0x5A05DF1B, 0x2D02EF8D,
];

/// The entries of `TABLE`, written out so that the bit-vector solver can
/// compare them with [`crc_shift8`].
spec fn table_listing(i: u32) -> u32 {
    if i == 0 { 0x00000000 } else
    if i == 1 { 0x77073096 } else
    if i == 2 { 0xEE0E612C } else
    if i == 3 { 0x990951BA } else
    if i == 4 { 0x076DC419 } else
    if i == 5 { 0x706AF48F } else
    if i == 6 { 0xE963A535 } else
    if i == 7 { 0x9E6495A3 } else
    if i == 8 { 0x0EDB8832 } else
    if i == 9 { 0x79DCB8A4 } else
    if i == 10 { 0xE0D5E91E } else
    if i == 11 { 0x97D2D988 } else
    if i == 12 { 0x09B64C2B } else
    if i == 13 { 0x7EB17CBD } else
    if i == 14 { 0xE7B82D07 } else
    if i == 15 { 0x90BF1D91 } else
    if i == 16 { 0x1DB71064 } else
    if i == 17 { 0x6AB020F2 } else
    if i == 18 { 0xF3B97148 } else
    if i == 19 { 0x84BE41DE } else
    if i == 20 { 0x1ADAD47D } else
    if i == 21 { 0x6DDDE4EB } else
    if i == 22 { 0xF4D4B551 } else
    if i == 23 { 0x83D385C7 } else
    if i == 24 { 0x136C9856 } else
    if i == 25 { 0x646BA8C0 } else
    if i == 26 { 0xFD62F97A } else
    if i == 27 { 0x8A65C9EC } else
    if i == 28 { 0x14015C4F } else
    if i == 29 { 0x63066CD9 } else
    if i == 30 { 0xFA0F3D63 } else
    if i == 31 { 0x8D080DF5 } else
    if i == 32 { 0x3B6E20C8 } else
    if i == 33 { 0x4C69105E } else
    if i == 34 { 0xD56041E4 } else
    if i == 35 { 0xA2677172 } else
    if i == 36 { 0x3C03E4D1 } else
    if i == 37 { 0x4B04D447 } else
    if i == 38 { 0xD20D85FD } else
    if i == 39 { 0xA50AB56B } else
    if i == 40 { 0x35B5A8FA } else
    if i == 41 { 0x42B2986C } else
    if i == 42 { 0xDBBBC9D6 } else
    if i == 43 { 0xACBCF940 } else
    if i == 44 { 0x32D86CE3 } else
    if i == 45 { 0x45DF5C75 } else
    if i == 46 { 0xDCD60DCF } else
    if i == 47 { 0xABD13D59 } else
    if i == 48 { 0x26D930AC } else
    if i == 49 { 0x51DE003A } else
    if i == 50 { 0xC8D75180 } else
    if i == 51 { 0xBFD06116 } else
    if i == 52 { 0x21B4F4B5 } else
    if i == 53 { 0x56B3C423 } else
    if i == 54 { 0xCFBA9599 } else
    if i == 55 { 0xB8BDA50F } else
    if i == 56 { 0x2802B89E } else
    if i == 57 { 0x5F058808 } else
    if i == 58 { 0xC60CD9B2 } else
    if i == 59 { 0xB10BE924 } else
    if i == 60 { 0x2F6F7C87 } else
    if i == 61 { 0x58684C11 } else
    if i == 62 { 0xC1611DAB } else
    if i == 63 { 0xB6662D3D } else
    if i == 64 { 0x76DC4190 } else
    if i == 65 { 0x01DB7106 } else
    if i == 66 { 0x98D220BC } else
    if i == 67 { 0xEFD5102A } else
    if i == 68 { 0x71B18589 } else
    if i == 69 { 0x06B6B51F } else
    if i == 70 { 0x9FBFE4A5 } else
    if i == 71 { 0xE8B8D433 } else
    if i == 72 { 0x7807C9A2 } else
    if i == 73 { 0x0F00F934 } else
    if i == 74 { 0x9609A88E } else
    if i == 75 { 0xE10E9818 } else
    if i == 76 { 0x7F6A0DBB } else
    if i == 77 { 0x086D3D2D } else
    if i == 78 { 0x91646C97 } else
    if i == 79 { 0xE6635C01 } else
    if i == 80 { 0x6B6B51F4 } else
    if i == 81 { 0x1C6C6162 } else
    if i == 82 { 0x856530D8 } else
    if i == 83 { 0xF262004E } else
    if i == 84 { 0x6C0695ED } else
    if i == 85 { 0x1B01A57B } else
    if i == 86 { 0x8208F4C1 } else
    if i == 87 { 0xF50FC457 } else
    if i == 88 { 0x65B0D9C6 } else
    if i == 89 { 0x12B7E950 } else
    if i == 90 { 0x8BBEB8EA } else
    if i == 91 { 0xFCB9887C } else
    if i == 92 { 0x62DD1DDF } else
    if i == 93 { 0x15DA2D49 } else
    if i == 94 { 0x8CD37CF3 } else
    if i == 95 { 0xFBD44C65 } else
    if i == 96 { 0x4DB26158 } else
    if i == 97 { 0x3AB551CE } else
    if i == 98 { 0xA3BC0074 } else
    if i == 99 { 0xD4BB30E2 } else
    if i == 100 { 0x4ADFA541 } else
    if i == 101 { 0x3DD895D7 } else
    if i == 102 { 0xA4D1C46D } else
    if i == 103 { 0xD3D6F4FB } else
    if i == 104 { 0x4369E96A } else
    if i == 105 { 0x346ED9FC } else
    if i == 106 { 0xAD678846 } else
    if i == 107 { 0xDA60B8D0 } else
    if i == 108 { 0x44042D73 } else
    if i == 109 { 0x33031DE5 } else
    if i == 110 { 0xAA0A4C5F } else
    if i == 111 { 0xDD0D7CC9 } else
    if i == 112 { 0x5005713C } else
    if i == 113 { 0x270241AA } else
    if i == 114 { 0xBE0B1010 } else
    if i == 115 { 0xC90C2086 } else
    if i == 116 { 0x5768B525 } else
    if i == 117 { 0x206F85B3 } else
    if i == 118 { 0xB966D409 } else
    if i == 119 { 0xCE61E49F } else
    if i == 120 { 0x5EDEF90E } else
    if i == 121 { 0x29D9C998 } else
    if i == 122 { 0xB0D09822 } else
    if i == 123 { 0xC7D7A8B4 } else
    if i == 124 { 0x59B33D17 } else
    if i == 125 { 0x2EB40D81 } else
    if i == 126 { 0xB7BD5C3B } else
    if i == 127 { 0xC0BA6CAD } else
    if i == 128 { 0xEDB88320 } else
    if i == 129 { 0x9ABFB3B6 } else
    if i == 130 { 0x03B6E20C } else
    if i == 131 { 0x74B1D29A } else
    if i == 132 { 0xEAD54739 } else
    if i == 133 { 0x9DD277AF } else
    if i == 134 { 0x04DB2615 } else
    if i == 135 { 0x73DC1683 } else
    if i == 136 { 0xE3630B12 } else
    if i == 137 { 0x94643B84 } else
    if i == 138 { 0x0D6D6A3E } else
    if i == 139 { 0x7A6A5AA8 } else
    if i == 140 { 0xE40ECF0B } else
    if i == 141 { 0x9309FF9D } else
    if i == 142 { 0x0A00AE27 } else
    if i == 143 { 0x7D079EB1 } else
    if i == 144 { 0xF00F9344 } else
    if i == 145 { 0x8708A3D2 } else
    if i == 146 { 0x1E01F268 } else
    if i == 147 { 0x6906C2FE } else
    if i == 148 { 0xF762575D } else
    if i == 149 { 0x806567CB } else
    if i == 150 { 0x196C3671 } else
    if i == 151 { 0x6E6B06E7 } else
    if i == 152 { 0xFED41B76 } else
    if i == 153 { 0x89D32BE0 } else
    if i == 154 { 0x10DA7A5A } else
    if i == 155 { 0x67DD4ACC } else
    if i == 156 { 0xF9B9DF6F } else
    if i == 157 { 0x8EBEEFF9 } else
    if i == 158 { 0x17B7BE43 } else
    if i == 159 { 0x60B08ED5 } else
    if i == 160 { 0xD6D6A3E8 } else
    if i == 161 { 0xA1D1937E } else
    if i == 162 { 0x38D8C2C4 } else
    if i == 163 { 0x4FDFF252 } else
    if i == 164 { 0xD1BB67F1 } else
    if i == 165 { 0xA6BC5767 } else
    if i == 166 { 0x3FB506DD } else
    if i == 167 { 0x48B2364B } else
    if i == 168 { 0xD80D2BDA } else
    if i == 169 { 0xAF0A1B4C } else
    if i == 170 { 0x36034AF6 } else
    if i == 171 { 0x41047A60 } else
    if i == 172 { 0xDF60EFC3 } else
    if i == 173 { 0xA867DF55 } else
    if i == 174 { 0x316E8EEF } else
    if i == 175 { 0x4669BE79 } else
    if i == 176 { 0xCB61B38C } else
    if i == 177 { 0xBC66831A } else
    if i == 178 { 0x256FD2A0 } else
    if i == 179 { 0x5268E236 } else
    if i == 180 { 0xCC0C7795 } else
    if i == 181 { 0xBB0B4703 } else
    if i == 182 { 0x220216B9 } else
    if i == 183 { 0x5505262F } else
    if i == 184 { 0xC5BA3BBE } else
    if i == 185 { 0xB2BD0B28 } else
    if i == 186 { 0x2BB45A92 } else
    if i == 187 { 0x5CB36A04 } else
    if i == 188 { 0xC2D7FFA7 } else
    if i == 189 { 0xB5D0CF31 } else
    if i == 190 { 0x2CD99E8B } else
    if i == 191 { 0x5BDEAE1D } else
    if i == 192 { 0x9B64C2B0 } else
    if i == 193 { 0xEC63F226 } else
    if i == 194 { 0x756AA39C } else
    if i == 195 { 0x026D930A } else
    if i == 196 { 0x9C0906A9 } else
    if i == 197 { 0xEB0E363F } else
    if i == 198 { 0x72076785 } else
    if i == 199 { 0x05005713 } else
    if i == 200 { 0x95BF4A82 } else
    if i == 201 { 0xE2B87A14 } else
    if i == 202 { 0x7BB12BAE } else
    if i == 203 { 0x0CB61B38 } else
    if i == 204 { 0x92D28E9B } else
    if i == 205 { 0xE5D5BE0D } else
    if i == 206 { 0x7CDCEFB7 } else
    if i == 207 { 0x0BDBDF21 } else
    if i == 208 { 0x86D3D2D4 } else
    if i == 209 { 0xF1D4E242 } else
    if i == 210 { 0x68DDB3F8 } else
    if i == 211 { 0x1FDA836E } else
    if i == 212 { 0x81BE16CD } else
    if i == 213 { 0xF6B9265B } else
    if i == 214 { 0x6FB077E1 } else
    if i == 215 { 0x18B74777 } else
    if i == 216 { 0x88085AE6 } else
    if i == 217 { 0xFF0F6A70 } else
    if i == 218 { 0x66063BCA } else
    if i == 219 { 0x11010B5C } else
    if i == 220 { 0x8F659EFF } else
    if i == 221 { 0xF862AE69 } else
    if i == 222 { 0x616BFFD3 } else
    if i == 223 { 0x166CCF45 } else
    if i == 224 { 0xA00AE278 } else
    if i == 225 { 0xD70DD2EE } else
    if i == 226 { 0x4E048354 } else
    if i == 227 { 0x3903B3C2 } else
    if i == 228 { 0xA7672661 } else
    if i == 229 { 0xD06016F7 } else
    if i == 230 { 0x4969474D } else
    if i == 231 { 0x3E6E77DB } else
    if i == 232 { 0xAED16A4A } else
    if i == 233 { 0xD9D65ADC } else
    if i == 234 { 0x40DF0B66 } else
    if i == 235 { 0x37D83BF0 } else
    if i == 236 { 0xA9BCAE53 } else
    if i == 237 { 0xDEBB9EC5 } else
    if i == 238 { 0x47B2CF7F } else
    if i == 239 { 0x30B5FFE9 } else
    if i == 240 { 0xBDBDF21C } else
    if i == 241 { 0xCABAC28A } else
    if i == 242 { 0x53B39330 } else
    if i == 243 { 0x24B4A3A6 } else
    if i == 244 { 0xBAD03605 } else
    if i == 245 { 0xCDD70693 } else
    if i == 246 { 0x54DE5729 } else
    if i == 247 { 0x23D967BF } else
    if i == 248 { 0xB3667A2E } else
    if i == 249 { 0xC4614AB8 } else
    if i == 250 { 0x5D681B02 } else
    if i == 251 { 0x2A6F2B94 } else
    if i == 252 { 0xB40BBE37 } else
    if i == 253 { 0xC30C8EA1 } else
    if i == 254 { 0x5A05DF1B } else
    { 0x2D02EF8D }
}

/// The written-out entries are the eight-shift images of their indices.
#[verifier::rlimit(60)]
proof fn lemma_listing_entries()
    by (bit_vector)
    ensures
        forall|i: u32| i < 256 ==> #[trigger] crc_shift8(i) == table_listing(i),
{
}

/// Every entry of the lookup table is the eight-shift image of its index.
proof fn lemma_table_entries()
    ensures
        forall|i: int| 0 <= i < 256 ==> #[trigger] TABLE@[i] == crc_shift8(i as u32),
{
    lemma_listing_entries();
    assert forall|i: int| 0 <= i < 256 implies #[trigger] TABLE@[i] == crc_shift8(i as u32) by {
        assert(TABLE@[i] == table_listing(i as u32));
        assert(crc_shift8(i as u32) == table_listing(i as u32));
    }
}

/// Feeding a byte with the table gives the same register as the eight shifts:
/// the high 24 bits of the register only move down, the low 8 bits and the
/// byte select the table entry.
proof fn lemma_table_step(register: u32, byte: u32)
    by (bit_vector)
    requires
        byte < 256,
    ensures
        crc_shift8(register ^ byte) == (register >> 8u32) ^ crc_shift8((byte ^ register) & 0xFFu32),
{
}

/// Feeding `a` and then `b` leaves the register where feeding `a + b` at once
/// leaves it, so data may be checksummed in chunks of any size.
pub proof fn law_crc_register_chunks(register: u32, a: Seq<u8>, b: Seq<u8>)
    ensures
        crc_register(register, a + b) == crc_register(crc_register(register, a), b),
    decreases b.len(),
{
    if b.len() == 0 {
        assert(a + b =~= a);
    } else {
        law_crc_register_chunks(register, a, b.drop_last());
        assert((a + b).drop_last() =~= a + b.drop_last());
        assert((a + b).last() == b.last());
    }
}

/// A computation that starts fresh and is fed `a` and then `b` sums to the
/// CRC-32 of `a + b`.
pub proof fn law_checksum_of_chunks(a: Seq<u8>, b: Seq<u8>)
    ensures
        !crc_register(crc_register(0xFFFF_FFFFu32, a), b) == crc32(a + b),
{
    law_crc_register_chunks(0xFFFF_FFFFu32, a, b);
}

/// A running CRC-32 computation.
pub struct Crc32 {
    sum: u32,
}

impl Crc32 {
    /// The current register (before the final complement).
    pub closed spec fn register(&self) -> u32 {
        self.sum
    }

    /// A computation over no data yet.
    pub fn new() -> (crc: Self)
        ensures
            crc.register() == 0xFFFF_FFFFu32,
    {
        Self { sum: 0xFFFF_FFFF }
    }

    /// Feeds `data` to the computation.
    pub fn update(&mut self, data: &[u8])
        ensures
            final(self).register() == crc_register(old(self).register(), data@),
    {
        let ghost start = self.sum;
        let n = data.len();
        let mut i: usize = 0;
        while i < n
            invariant
                n == data@.len(),
                0 <= i <= n,
                self.sum == crc_register(start, data@.subrange(0, i as int)),
            decreases n - i,
        {
            let b = data[i];
            let reg = self.sum;
            let idx_u32: u32 = ((b as u32) ^ reg) & 0xFF;
            assert(idx_u32 < 256) by (bit_vector)
                requires
                    idx_u32 == ((b as u32) ^ reg) & 0xFFu32,
            ;
            proof {
                lemma_table_entries();
                lemma_table_step(self.sum, b as u32);
                assert(data@.subrange(0, i + 1).drop_last() =~= data@.subrange(0, i as int));
                assert(data@.subrange(0, i + 1).last() == b);
            }
            self.sum = (self.sum >> 8) ^ TABLE[idx_u32 as usize];
            i = i + 1;
        }
        assert(data@.subrange(0, n as int) =~= data@);
    }

    /// The checksum of everything fed so far.
    pub fn sum(&self) -> (s: u32)
        ensures
            s == !self.register(),
    {
        !self.sum
    }
}

} // verus!
