//! The text of the helpers that exist once per pool. `@` stands for the number
//! of the pool.
use vstd::prelude::*;

verus! {

/// Sum of the bytes of a range.
pub const SIMD_SUM_U8: &'static str = r#"  (func $tvm_simd_sum_u8_p@ (export "tvm_simd_sum_u8_p@")
        (param $off i32) (param $len i32) (result i64)
    (local $cur i32) (local $end i32) (local $vec_end i32)
    (local $acc v128) (local $quads v128) (local $scalar i64)
    (local.set $cur (local.get $off))
    (local.set $end (i32.add (local.get $off) (local.get $len)))
    (local.set $vec_end
      (i32.add (local.get $off)
               (i32.and (local.get $len) (i32.const -16))))
    (local.set $acc (v128.const i64x2 0 0))
    (block $vec_done
      (loop $vec_continue
        (br_if $vec_done (i32.eq (local.get $cur) (local.get $vec_end)))
        (local.set $quads
          (i32x4.extadd_pairwise_i16x8_u
            (i16x8.extadd_pairwise_i8x16_u
              (v128.load @ (local.get $cur)))))
        (local.set $acc
          (i64x2.add
            (i64x2.add
              (local.get $acc)
              (i64x2.extend_low_i32x4_u (local.get $quads)))
            (i64x2.extend_high_i32x4_u (local.get $quads))))
        (local.set $cur (i32.add (local.get $cur) (i32.const 16)))
        (br $vec_continue)))
    (local.set $scalar
      (i64.add
        (i64x2.extract_lane 0 (local.get $acc))
        (i64x2.extract_lane 1 (local.get $acc))))
    (block $tail_done
      (loop $tail_continue
        (br_if $tail_done (i32.eq (local.get $cur) (local.get $end)))
        (local.set $scalar
          (i64.add (local.get $scalar)
                   (i64.load8_u @ (local.get $cur))))
        (local.set $cur (i32.add (local.get $cur) (i32.const 1)))
        (br $tail_continue)))
    (local.get $scalar))
"#;

/// Exclusive or of the bytes of a range.
pub const SIMD_XOR_FOLD: &'static str = r#"  (func $tvm_simd_xor_fold_u8_p@ (export "tvm_simd_xor_fold_u8_p@")
        (param $off i32) (param $len i32) (result i32)
    (local $cur i32) (local $end i32) (local $vec_end i32)
    (local $acc v128) (local $tmp i64) (local $byte i32)
    (local.set $cur (local.get $off))
    (local.set $end (i32.add (local.get $off) (local.get $len)))
    (local.set $vec_end
      (i32.add (local.get $off)
               (i32.and (local.get $len) (i32.const -16))))
    (local.set $acc (v128.const i64x2 0 0))
    (block $vec_done
      (loop $vec_continue
        (br_if $vec_done (i32.eq (local.get $cur) (local.get $vec_end)))
        (local.set $acc
          (v128.xor (local.get $acc) (v128.load @ (local.get $cur))))
        (local.set $cur (i32.add (local.get $cur) (i32.const 16)))
        (br $vec_continue)))
    (local.set $tmp
      (i64.xor
        (i64x2.extract_lane 0 (local.get $acc))
        (i64x2.extract_lane 1 (local.get $acc))))
    (local.set $tmp
      (i64.xor (local.get $tmp) (i64.shr_u (local.get $tmp) (i64.const 32))))
    (local.set $tmp
      (i64.xor (local.get $tmp) (i64.shr_u (local.get $tmp) (i64.const 16))))
    (local.set $tmp
      (i64.xor (local.get $tmp) (i64.shr_u (local.get $tmp) (i64.const 8))))
    (local.set $byte (i32.and (i32.wrap_i64 (local.get $tmp)) (i32.const 0xff)))
    (block $tail_done
      (loop $tail_continue
        (br_if $tail_done (i32.eq (local.get $cur) (local.get $end)))
        (local.set $byte
          (i32.xor (local.get $byte)
                   (i32.load8_u @ (local.get $cur))))
        (local.set $cur (i32.add (local.get $cur) (i32.const 1)))
        (br $tail_continue)))
    (local.get $byte))
"#;

/// Conjunction of the bytes of a range; all ones for an empty one.
pub const SIMD_AND_FOLD: &'static str = r#"  (func $tvm_simd_and_fold_u8_p@ (export "tvm_simd_and_fold_u8_p@")
        (param $off i32) (param $len i32) (result i32)
    (local $cur i32) (local $end i32) (local $vec_end i32)
    (local $acc v128) (local $tmp i64) (local $byte i32)
    (local.set $cur (local.get $off))
    (local.set $end (i32.add (local.get $off) (local.get $len)))
    (local.set $vec_end
      (i32.add (local.get $off)
               (i32.and (local.get $len) (i32.const -16))))
    (local.set $acc (v128.const i64x2 -1 -1))
    (local.set $byte (i32.const 0xff))
    (block $vec_done
      (loop $vec_continue
        (br_if $vec_done (i32.eq (local.get $cur) (local.get $vec_end)))
        (local.set $acc
          (v128.and (local.get $acc) (v128.load @ (local.get $cur))))
        (local.set $cur (i32.add (local.get $cur) (i32.const 16)))
        (br $vec_continue)))
    (if (i32.ne (local.get $vec_end) (local.get $off))
      (then
        (local.set $tmp
          (i64.and
            (i64x2.extract_lane 0 (local.get $acc))
            (i64x2.extract_lane 1 (local.get $acc))))
        (local.set $tmp
          (i64.and (local.get $tmp) (i64.shr_u (local.get $tmp) (i64.const 32))))
        (local.set $tmp
          (i64.and (local.get $tmp) (i64.shr_u (local.get $tmp) (i64.const 16))))
        (local.set $tmp
          (i64.and (local.get $tmp) (i64.shr_u (local.get $tmp) (i64.const 8))))
        (local.set $byte
          (i32.and (i32.wrap_i64 (local.get $tmp)) (i32.const 0xff)))))
    (block $tail_done
      (loop $tail_continue
        (br_if $tail_done (i32.eq (local.get $cur) (local.get $end)))
        (local.set $byte
          (i32.and (local.get $byte)
                   (i32.load8_u @ (local.get $cur))))
        (local.set $cur (i32.add (local.get $cur) (i32.const 1)))
        (br $tail_continue)))
    (local.get $byte))
"#;

/// Disjunction of the bytes of a range.
pub const SIMD_OR_FOLD: &'static str = r#"  (func $tvm_simd_or_fold_u8_p@ (export "tvm_simd_or_fold_u8_p@")
        (param $off i32) (param $len i32) (result i32)
    (local $cur i32) (local $end i32) (local $vec_end i32)
    (local $acc v128) (local $tmp i64) (local $byte i32)
    (local.set $cur (local.get $off))
    (local.set $end (i32.add (local.get $off) (local.get $len)))
    (local.set $vec_end
      (i32.add (local.get $off)
               (i32.and (local.get $len) (i32.const -16))))
    (local.set $acc (v128.const i64x2 0 0))
    (block $vec_done
      (loop $vec_continue
        (br_if $vec_done (i32.eq (local.get $cur) (local.get $vec_end)))
        (local.set $acc
          (v128.or (local.get $acc) (v128.load @ (local.get $cur))))
        (local.set $cur (i32.add (local.get $cur) (i32.const 16)))
        (br $vec_continue)))
    (local.set $tmp
      (i64.or
        (i64x2.extract_lane 0 (local.get $acc))
        (i64x2.extract_lane 1 (local.get $acc))))
    (local.set $tmp
      (i64.or (local.get $tmp) (i64.shr_u (local.get $tmp) (i64.const 32))))
    (local.set $tmp
      (i64.or (local.get $tmp) (i64.shr_u (local.get $tmp) (i64.const 16))))
    (local.set $tmp
      (i64.or (local.get $tmp) (i64.shr_u (local.get $tmp) (i64.const 8))))
    (local.set $byte (i32.and (i32.wrap_i64 (local.get $tmp)) (i32.const 0xff)))
    (block $tail_done
      (loop $tail_continue
        (br_if $tail_done (i32.eq (local.get $cur) (local.get $end)))
        (local.set $byte
          (i32.or (local.get $byte)
                  (i32.load8_u @ (local.get $cur))))
        (local.set $cur (i32.add (local.get $cur) (i32.const 1)))
        (br $tail_continue)))
    (local.get $byte))
"#;

/// How often a byte occurs in a range.
pub const SIMD_COUNT_BYTE: &'static str = r#"  (func $tvm_simd_count_byte_p@ (export "tvm_simd_count_byte_p@")
        (param $off i32) (param $len i32) (param $byte i32) (result i32)
    (local $cur i32) (local $end i32) (local $vec_end i32)
    (local $broadcast v128) (local $count i32)
    (local.set $cur (local.get $off))
    (local.set $end (i32.add (local.get $off) (local.get $len)))
    (local.set $vec_end
      (i32.add (local.get $off)
               (i32.and (local.get $len) (i32.const -16))))
    (local.set $broadcast (i8x16.splat (local.get $byte)))
    (block $vec_done
      (loop $vec_continue
        (br_if $vec_done (i32.eq (local.get $cur) (local.get $vec_end)))
        (local.set $count
          (i32.add (local.get $count)
            (i32.popcnt
              (i8x16.bitmask
                (i8x16.eq
                  (v128.load @ (local.get $cur))
                  (local.get $broadcast))))))
        (local.set $cur (i32.add (local.get $cur) (i32.const 16)))
        (br $vec_continue)))
    (block $tail_done
      (loop $tail_continue
        (br_if $tail_done (i32.eq (local.get $cur) (local.get $end)))
        (if (i32.eq (i32.load8_u @ (local.get $cur)) (local.get $byte))
          (then (local.set $count (i32.add (local.get $count) (i32.const 1)))))
        (local.set $cur (i32.add (local.get $cur) (i32.const 1)))
        (br $tail_continue)))
    (local.get $count))
"#;

/// The number of one bits in a range.
pub const SIMD_POPCOUNT: &'static str = r#"  (func $tvm_simd_popcount_p@ (export "tvm_simd_popcount_p@")
        (param $off i32) (param $len i32) (result i64)
    (local $cur i32) (local $end i32) (local $vec_end i32)
    (local $acc v128) (local $tmp v128) (local $scalar i64)
    (local.set $cur (local.get $off))
    (local.set $end (i32.add (local.get $off) (local.get $len)))
    (local.set $vec_end
      (i32.add (local.get $off)
               (i32.and (local.get $len) (i32.const -16))))
    (local.set $acc (v128.const i64x2 0 0))
    (block $vec_done
      (loop $vec_continue
        (br_if $vec_done (i32.eq (local.get $cur) (local.get $vec_end)))
        (local.set $tmp
          (i32x4.extadd_pairwise_i16x8_u
            (i16x8.extadd_pairwise_i8x16_u
              (i8x16.popcnt
                (v128.load @ (local.get $cur))))))
        (local.set $acc
          (i64x2.add
            (i64x2.add
              (local.get $acc)
              (i64x2.extend_low_i32x4_u (local.get $tmp)))
            (i64x2.extend_high_i32x4_u (local.get $tmp))))
        (local.set $cur (i32.add (local.get $cur) (i32.const 16)))
        (br $vec_continue)))
    (local.set $scalar
      (i64.add
        (i64x2.extract_lane 0 (local.get $acc))
        (i64x2.extract_lane 1 (local.get $acc))))
    (block $tail_done
      (loop $tail_continue
        (br_if $tail_done (i32.eq (local.get $cur) (local.get $end)))
        (local.set $scalar
          (i64.add (local.get $scalar)
            (i64.extend_i32_u
              (i32.popcnt (i32.load8_u @ (local.get $cur))))))
        (local.set $cur (i32.add (local.get $cur) (i32.const 1)))
        (br $tail_continue)))
    (local.get $scalar))
"#;

/// Where a byte first occurs in a range, or minus one.
pub const SIMD_FIND_BYTE: &'static str = r#"  (func $tvm_simd_find_byte_p@ (export "tvm_simd_find_byte_p@")
        (param $off i32) (param $len i32) (param $byte i32) (result i32)
    (local $cur i32) (local $end i32) (local $vec_end i32)
    (local $broadcast v128) (local $mask i32)
    (local.set $cur (local.get $off))
    (local.set $end (i32.add (local.get $off) (local.get $len)))
    (local.set $vec_end
      (i32.add (local.get $off)
               (i32.and (local.get $len) (i32.const -16))))
    (local.set $broadcast (i8x16.splat (local.get $byte)))
    (block $vec_done
      (loop $vec_continue
        (br_if $vec_done (i32.eq (local.get $cur) (local.get $vec_end)))
        (local.set $mask
          (i8x16.bitmask
            (i8x16.eq
              (v128.load @ (local.get $cur))
              (local.get $broadcast))))
        (if (i32.ne (local.get $mask) (i32.const 0))
          (then
            (return (i32.sub
              (i32.add (local.get $cur) (i32.ctz (local.get $mask)))
              (local.get $off)))))
        (local.set $cur (i32.add (local.get $cur) (i32.const 16)))
        (br $vec_continue)))
    (block $tail_done
      (loop $tail_continue
        (br_if $tail_done (i32.eq (local.get $cur) (local.get $end)))
        (if (i32.eq (i32.load8_u @ (local.get $cur)) (local.get $byte))
          (then
            (return (i32.sub (local.get $cur) (local.get $off)))))
        (local.set $cur (i32.add (local.get $cur) (i32.const 1)))
        (br $tail_continue)))
    (i32.const -1))
"#;

/// Least and greatest byte of a range, as `min << 8 | max`.
pub const SIMD_MIN_MAX: &'static str = r#"  (func $tvm_simd_min_max_u8_p@ (export "tvm_simd_min_max_u8_p@")
        (param $off i32) (param $len i32) (result i32)
    (local $cur i32) (local $end i32) (local $vec_end i32)
    (local $vmin v128) (local $vmax v128) (local $vec v128)
    (local $any_vec i32) (local $lo i32) (local $hi i32) (local $b i32)
    (local.set $cur (local.get $off))
    (local.set $end (i32.add (local.get $off) (local.get $len)))
    (local.set $vec_end
      (i32.add (local.get $off)
               (i32.and (local.get $len) (i32.const -16))))
    (local.set $vmin (v128.const i8x16 -1 -1 -1 -1 -1 -1 -1 -1
                                       -1 -1 -1 -1 -1 -1 -1 -1))
    (local.set $vmax (v128.const i64x2 0 0))
    (local.set $lo (i32.const 255))
    (local.set $hi (i32.const 0))
    (block $vec_done
      (loop $vec_continue
        (br_if $vec_done (i32.eq (local.get $cur) (local.get $vec_end)))
        (local.set $vec (v128.load @ (local.get $cur)))
        (local.set $vmin (i8x16.min_u (local.get $vmin) (local.get $vec)))
        (local.set $vmax (i8x16.max_u (local.get $vmax) (local.get $vec)))
        (local.set $any_vec (i32.const 1))
        (local.set $cur (i32.add (local.get $cur) (i32.const 16)))
        (br $vec_continue)))
    (if (i32.eq (local.get $any_vec) (i32.const 1))
      (then
        ;; Reduce vmin / vmax across all 16 lanes by extract+scalar-min.
        (local.set $b (i8x16.extract_lane_u 0 (local.get $vmin)))
        (if (i32.lt_u (local.get $b) (local.get $lo))
          (then (local.set $lo (local.get $b))))
        (local.set $b (i8x16.extract_lane_u 0 (local.get $vmax)))
        (if (i32.gt_u (local.get $b) (local.get $hi))
          (then (local.set $hi (local.get $b))))
        (local.set $b (i8x16.extract_lane_u 1 (local.get $vmin)))
        (if (i32.lt_u (local.get $b) (local.get $lo))
          (then (local.set $lo (local.get $b))))
        (local.set $b (i8x16.extract_lane_u 1 (local.get $vmax)))
        (if (i32.gt_u (local.get $b) (local.get $hi))
          (then (local.set $hi (local.get $b))))
        (local.set $b (i8x16.extract_lane_u 2 (local.get $vmin)))
        (if (i32.lt_u (local.get $b) (local.get $lo))
          (then (local.set $lo (local.get $b))))
        (local.set $b (i8x16.extract_lane_u 2 (local.get $vmax)))
        (if (i32.gt_u (local.get $b) (local.get $hi))
          (then (local.set $hi (local.get $b))))
        (local.set $b (i8x16.extract_lane_u 3 (local.get $vmin)))
        (if (i32.lt_u (local.get $b) (local.get $lo))
          (then (local.set $lo (local.get $b))))
        (local.set $b (i8x16.extract_lane_u 3 (local.get $vmax)))
        (if (i32.gt_u (local.get $b) (local.get $hi))
          (then (local.set $hi (local.get $b))))
        (local.set $b (i8x16.extract_lane_u 4 (local.get $vmin)))
        (if (i32.lt_u (local.get $b) (local.get $lo))
          (then (local.set $lo (local.get $b))))
        (local.set $b (i8x16.extract_lane_u 4 (local.get $vmax)))
        (if (i32.gt_u (local.get $b) (local.get $hi))
          (then (local.set $hi (local.get $b))))
        (local.set $b (i8x16.extract_lane_u 5 (local.get $vmin)))
        (if (i32.lt_u (local.get $b) (local.get $lo))
          (then (local.set $lo (local.get $b))))
        (local.set $b (i8x16.extract_lane_u 5 (local.get $vmax)))
        (if (i32.gt_u (local.get $b) (local.get $hi))
          (then (local.set $hi (local.get $b))))
        (local.set $b (i8x16.extract_lane_u 6 (local.get $vmin)))
        (if (i32.lt_u (local.get $b) (local.get $lo))
          (then (local.set $lo (local.get $b))))
        (local.set $b (i8x16.extract_lane_u 6 (local.get $vmax)))
        (if (i32.gt_u (local.get $b) (local.get $hi))
          (then (local.set $hi (local.get $b))))
        (local.set $b (i8x16.extract_lane_u 7 (local.get $vmin)))
        (if (i32.lt_u (local.get $b) (local.get $lo))
          (then (local.set $lo (local.get $b))))
        (local.set $b (i8x16.extract_lane_u 7 (local.get $vmax)))
        (if (i32.gt_u (local.get $b) (local.get $hi))
          (then (local.set $hi (local.get $b))))
        (local.set $b (i8x16.extract_lane_u 8 (local.get $vmin)))
        (if (i32.lt_u (local.get $b) (local.get $lo))
          (then (local.set $lo (local.get $b))))
        (local.set $b (i8x16.extract_lane_u 8 (local.get $vmax)))
        (if (i32.gt_u (local.get $b) (local.get $hi))
          (then (local.set $hi (local.get $b))))
        (local.set $b (i8x16.extract_lane_u 9 (local.get $vmin)))
        (if (i32.lt_u (local.get $b) (local.get $lo))
          (then (local.set $lo (local.get $b))))
        (local.set $b (i8x16.extract_lane_u 9 (local.get $vmax)))
        (if (i32.gt_u (local.get $b) (local.get $hi))
          (then (local.set $hi (local.get $b))))
        (local.set $b (i8x16.extract_lane_u 10 (local.get $vmin)))
        (if (i32.lt_u (local.get $b) (local.get $lo))
          (then (local.set $lo (local.get $b))))
        (local.set $b (i8x16.extract_lane_u 10 (local.get $vmax)))
        (if (i32.gt_u (local.get $b) (local.get $hi))
          (then (local.set $hi (local.get $b))))
        (local.set $b (i8x16.extract_lane_u 11 (local.get $vmin)))
        (if (i32.lt_u (local.get $b) (local.get $lo))
          (then (local.set $lo (local.get $b))))
        (local.set $b (i8x16.extract_lane_u 11 (local.get $vmax)))
        (if (i32.gt_u (local.get $b) (local.get $hi))
          (then (local.set $hi (local.get $b))))
        (local.set $b (i8x16.extract_lane_u 12 (local.get $vmin)))
        (if (i32.lt_u (local.get $b) (local.get $lo))
          (then (local.set $lo (local.get $b))))
        (local.set $b (i8x16.extract_lane_u 12 (local.get $vmax)))
        (if (i32.gt_u (local.get $b) (local.get $hi))
          (then (local.set $hi (local.get $b))))
        (local.set $b (i8x16.extract_lane_u 13 (local.get $vmin)))
        (if (i32.lt_u (local.get $b) (local.get $lo))
          (then (local.set $lo (local.get $b))))
        (local.set $b (i8x16.extract_lane_u 13 (local.get $vmax)))
        (if (i32.gt_u (local.get $b) (local.get $hi))
          (then (local.set $hi (local.get $b))))
        (local.set $b (i8x16.extract_lane_u 14 (local.get $vmin)))
        (if (i32.lt_u (local.get $b) (local.get $lo))
          (then (local.set $lo (local.get $b))))
        (local.set $b (i8x16.extract_lane_u 14 (local.get $vmax)))
        (if (i32.gt_u (local.get $b) (local.get $hi))
          (then (local.set $hi (local.get $b))))
        (local.set $b (i8x16.extract_lane_u 15 (local.get $vmin)))
        (if (i32.lt_u (local.get $b) (local.get $lo))
          (then (local.set $lo (local.get $b))))
        (local.set $b (i8x16.extract_lane_u 15 (local.get $vmax)))
        (if (i32.gt_u (local.get $b) (local.get $hi))
          (then (local.set $hi (local.get $b))))))
    (block $tail_done
      (loop $tail_continue
        (br_if $tail_done (i32.eq (local.get $cur) (local.get $end)))
        (local.set $b (i32.load8_u @ (local.get $cur)))
        (if (i32.lt_u (local.get $b) (local.get $lo))
          (then (local.set $lo (local.get $b))))
        (if (i32.gt_u (local.get $b) (local.get $hi))
          (then (local.set $hi (local.get $b))))
        (local.set $cur (i32.add (local.get $cur) (i32.const 1)))
        (br $tail_continue)))
    (i32.or
      (i32.shl (local.get $lo) (i32.const 8))
      (local.get $hi)))
"#;

/// Copies from one pool into the default memory.
pub const COPY_TO_DEFAULT: &'static str = r#"  (func $tvm_copy_to_default_p@ (export "tvm_copy_to_default_p@")
        (param $src_off i32) (param $dst_off i32) (param $len i32)
    (memory.copy 0 @ (local.get $dst_off) (local.get $src_off) (local.get $len)))
"#;

/// Copies from the default memory into one pool, which grows as needed.
pub const COPY_FROM_DEFAULT: &'static str = r#"  (func $tvm_copy_from_default_p@ (export "tvm_copy_from_default_p@")
        (param $dst_off i32) (param $src_off i32) (param $len i32)
        (local $end i32)
    (local.set $end (i32.add (local.get $dst_off) (local.get $len)))
    (if (i32.lt_u (local.get $end) (local.get $dst_off)) (then unreachable))
    (if (i32.gt_u
          (i32.add (i32.shr_u (local.get $end) (i32.const 16)) (i32.ne (i32.and (local.get $end) (i32.const 65535)) (i32.const 0)))
          (memory.size @))
      (then
        (drop
          (memory.grow @
            (i32.sub
              (i32.add (i32.shr_u (local.get $end) (i32.const 16)) (i32.ne (i32.and (local.get $end) (i32.const 65535)) (i32.const 0)))
              (memory.size @))))))
    (memory.copy @ 0 (local.get $dst_off) (local.get $src_off) (local.get $len)))
"#;

/// Copies inside one pool.
pub const INTRA_POOL_COPY: &'static str = r#"  (func $tvm_intra_pool_copy_p@ (export "tvm_intra_pool_copy_p@")
        (param $dst_off i32) (param $src_off i32) (param $len i32)
    (memory.copy @ @ (local.get $dst_off) (local.get $src_off) (local.get $len)))
"#;

/// Loads a byte from one pool.
pub const LOAD_U8: &'static str = r#"  (func $tvm_load_u8_p@ (export "tvm_load_u8_p@") (param $off i32) (result i32) (i32.load8_u @ (local.get $off)))
"#;

/// Loads four bytes from one pool.
pub const LOAD_U32: &'static str = r#"  (func $tvm_load_u32_p@ (export "tvm_load_u32_p@") (param $off i32) (result i32) (i32.load @ (local.get $off)))
"#;

/// Loads eight bytes from one pool.
pub const LOAD_I64: &'static str = r#"  (func $tvm_load_i64_p@ (export "tvm_load_i64_p@") (param $off i32) (result i64) (i64.load @ (local.get $off)))
"#;

/// Stores a byte into one pool.
pub const STORE_U8: &'static str = r#"  (func $tvm_store_u8_p@ (export "tvm_store_u8_p@") (param $off i32) (param $v i32) (i32.store8 @ (local.get $off) (local.get $v)))
"#;

/// Stores four bytes into one pool.
pub const STORE_U32: &'static str = r#"  (func $tvm_store_u32_p@ (export "tvm_store_u32_p@") (param $off i32) (param $v i32) (i32.store @ (local.get $off) (local.get $v)))
"#;

/// Stores eight bytes into one pool.
pub const STORE_I64: &'static str = r#"  (func $tvm_store_i64_p@ (export "tvm_store_i64_p@") (param $off i32) (param $v i64) (i64.store @ (local.get $off) (local.get $v)))
"#;

/// The loads that go through a function table; the number is that of the pools.
pub const INDIRECT_LOADS: &'static str = r#"  (func $tvm_load_u8_indirect (export "tvm_load_u8_indirect")
        (param $pool i32) (param $off i32) (result i32)
    (if (i32.ge_u (local.get $pool) (i32.const @)) (then unreachable))
    (call_indirect $tvm_tbl_load_u8 (type $tvm_indirect_load_u8)
      (local.get $off) (local.get $pool)))
  (func $tvm_load_u32_indirect (export "tvm_load_u32_indirect")
        (param $pool i32) (param $off i32) (result i32)
    (if (i32.ge_u (local.get $pool) (i32.const @)) (then unreachable))
    (call_indirect $tvm_tbl_load_u32 (type $tvm_indirect_load_u32)
      (local.get $off) (local.get $pool)))
  (func $tvm_load_i64_indirect (export "tvm_load_i64_indirect")
        (param $pool i32) (param $off i32) (result i64)
    (if (i32.ge_u (local.get $pool) (i32.const @)) (then unreachable))
    (call_indirect $tvm_tbl_load_i64 (type $tvm_indirect_load_i64)
      (local.get $off) (local.get $pool)))
"#;

} // verus!
