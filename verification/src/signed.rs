//! `Number` for the signed fixed-width integers, with wrapping arithmetic.

use vstd::prelude::*;
use crate::number::Number;

verus! {

impl Number for i16 {
    open spec fn from_u8_spec(v: u8) -> i16 {
        v as i16
    }

    open spec fn add_spec(self, rhs: i16) -> i16 {
        vstd::wrapping::i16_specs::wrapping_add(self, rhs)
    }

    open spec fn mul_spec(self, rhs: i16) -> i16 {
        vstd::wrapping::i16_specs::wrapping_mul(self, rhs)
    }

    fn from_u8(v: u8) -> (r: i16) {
        v as i16
    }

    fn plus(self, rhs: i16) -> (r: i16) {
        self.wrapping_add(rhs)
    }

    fn times(self, rhs: i16) -> (r: i16) {
        self.wrapping_mul(rhs)
    }

    fn same(&self, rhs: &i16) -> (b: bool) {
        *self == *rhs
    }

    proof fn lemma_add_zero(x: i16) {
    }

    proof fn lemma_mul_one(x: i16) {
    }

    proof fn lemma_mul_zero(x: i16) {
    }
}

impl Number for i32 {
    open spec fn from_u8_spec(v: u8) -> i32 {
        v as i32
    }

    open spec fn add_spec(self, rhs: i32) -> i32 {
        vstd::wrapping::i32_specs::wrapping_add(self, rhs)
    }

    open spec fn mul_spec(self, rhs: i32) -> i32 {
        vstd::wrapping::i32_specs::wrapping_mul(self, rhs)
    }

    fn from_u8(v: u8) -> (r: i32) {
        v as i32
    }

    fn plus(self, rhs: i32) -> (r: i32) {
        self.wrapping_add(rhs)
    }

    fn times(self, rhs: i32) -> (r: i32) {
        self.wrapping_mul(rhs)
    }

    fn same(&self, rhs: &i32) -> (b: bool) {
        *self == *rhs
    }

    proof fn lemma_add_zero(x: i32) {
    }

    proof fn lemma_mul_one(x: i32) {
    }

    proof fn lemma_mul_zero(x: i32) {
    }
}

impl Number for i64 {
    open spec fn from_u8_spec(v: u8) -> i64 {
        v as i64
    }

    open spec fn add_spec(self, rhs: i64) -> i64 {
        vstd::wrapping::i64_specs::wrapping_add(self, rhs)
    }

    open spec fn mul_spec(self, rhs: i64) -> i64 {
        vstd::wrapping::i64_specs::wrapping_mul(self, rhs)
    }

    fn from_u8(v: u8) -> (r: i64) {
        v as i64
    }

    fn plus(self, rhs: i64) -> (r: i64) {
        self.wrapping_add(rhs)
    }

    fn times(self, rhs: i64) -> (r: i64) {
        self.wrapping_mul(rhs)
    }

    fn same(&self, rhs: &i64) -> (b: bool) {
        *self == *rhs
    }

    proof fn lemma_add_zero(x: i64) {
    }

    proof fn lemma_mul_one(x: i64) {
    }

    proof fn lemma_mul_zero(x: i64) {
    }
}

impl Number for i128 {
    open spec fn from_u8_spec(v: u8) -> i128 {
        v as i128
    }

    open spec fn add_spec(self, rhs: i128) -> i128 {
        vstd::wrapping::i128_specs::wrapping_add(self, rhs)
    }

    open spec fn mul_spec(self, rhs: i128) -> i128 {
        vstd::wrapping::i128_specs::wrapping_mul(self, rhs)
    }

    fn from_u8(v: u8) -> (r: i128) {
        v as i128
    }

    fn plus(self, rhs: i128) -> (r: i128) {
        self.wrapping_add(rhs)
    }

    fn times(self, rhs: i128) -> (r: i128) {
        self.wrapping_mul(rhs)
    }

    fn same(&self, rhs: &i128) -> (b: bool) {
        *self == *rhs
    }

    proof fn lemma_add_zero(x: i128) {
    }

    proof fn lemma_mul_one(x: i128) {
    }

    proof fn lemma_mul_zero(x: i128) {
    }
}

} // verus!
