//! `Number` for the unsigned fixed-width integers, with wrapping arithmetic.

use vstd::prelude::*;
use crate::number::Number;

verus! {

impl Number for u8 {
    open spec fn from_u8_spec(v: u8) -> u8 {
        v as u8
    }

    open spec fn add_spec(self, rhs: u8) -> u8 {
        vstd::wrapping::u8_specs::wrapping_add(self, rhs)
    }

    open spec fn mul_spec(self, rhs: u8) -> u8 {
        vstd::wrapping::u8_specs::wrapping_mul(self, rhs)
    }

    fn from_u8(v: u8) -> (r: u8) {
        v as u8
    }

    fn plus(self, rhs: u8) -> (r: u8) {
        self.wrapping_add(rhs)
    }

    fn times(self, rhs: u8) -> (r: u8) {
        self.wrapping_mul(rhs)
    }

    fn same(&self, rhs: &u8) -> (b: bool) {
        *self == *rhs
    }

    proof fn lemma_add_zero(x: u8) {
    }

    proof fn lemma_mul_one(x: u8) {
    }

    proof fn lemma_mul_zero(x: u8) {
    }
}

impl Number for u16 {
    open spec fn from_u8_spec(v: u8) -> u16 {
        v as u16
    }

    open spec fn add_spec(self, rhs: u16) -> u16 {
        vstd::wrapping::u16_specs::wrapping_add(self, rhs)
    }

    open spec fn mul_spec(self, rhs: u16) -> u16 {
        vstd::wrapping::u16_specs::wrapping_mul(self, rhs)
    }

    fn from_u8(v: u8) -> (r: u16) {
        v as u16
    }

    fn plus(self, rhs: u16) -> (r: u16) {
        self.wrapping_add(rhs)
    }

    fn times(self, rhs: u16) -> (r: u16) {
        self.wrapping_mul(rhs)
    }

    fn same(&self, rhs: &u16) -> (b: bool) {
        *self == *rhs
    }

    proof fn lemma_add_zero(x: u16) {
    }

    proof fn lemma_mul_one(x: u16) {
    }

    proof fn lemma_mul_zero(x: u16) {
    }
}

impl Number for u32 {
    open spec fn from_u8_spec(v: u8) -> u32 {
        v as u32
    }

    open spec fn add_spec(self, rhs: u32) -> u32 {
        vstd::wrapping::u32_specs::wrapping_add(self, rhs)
    }

    open spec fn mul_spec(self, rhs: u32) -> u32 {
        vstd::wrapping::u32_specs::wrapping_mul(self, rhs)
    }

    fn from_u8(v: u8) -> (r: u32) {
        v as u32
    }

    fn plus(self, rhs: u32) -> (r: u32) {
        self.wrapping_add(rhs)
    }

    fn times(self, rhs: u32) -> (r: u32) {
        self.wrapping_mul(rhs)
    }

    fn same(&self, rhs: &u32) -> (b: bool) {
        *self == *rhs
    }

    proof fn lemma_add_zero(x: u32) {
    }

    proof fn lemma_mul_one(x: u32) {
    }

    proof fn lemma_mul_zero(x: u32) {
    }
}

impl Number for u64 {
    open spec fn from_u8_spec(v: u8) -> u64 {
        v as u64
    }

    open spec fn add_spec(self, rhs: u64) -> u64 {
        vstd::wrapping::u64_specs::wrapping_add(self, rhs)
    }

    open spec fn mul_spec(self, rhs: u64) -> u64 {
        vstd::wrapping::u64_specs::wrapping_mul(self, rhs)
    }

    fn from_u8(v: u8) -> (r: u64) {
        v as u64
    }

    fn plus(self, rhs: u64) -> (r: u64) {
        self.wrapping_add(rhs)
    }

    fn times(self, rhs: u64) -> (r: u64) {
        self.wrapping_mul(rhs)
    }

    fn same(&self, rhs: &u64) -> (b: bool) {
        *self == *rhs
    }

    proof fn lemma_add_zero(x: u64) {
    }

    proof fn lemma_mul_one(x: u64) {
    }

    proof fn lemma_mul_zero(x: u64) {
    }
}

impl Number for u128 {
    open spec fn from_u8_spec(v: u8) -> u128 {
        v as u128
    }

    open spec fn add_spec(self, rhs: u128) -> u128 {
        vstd::wrapping::u128_specs::wrapping_add(self, rhs)
    }

    open spec fn mul_spec(self, rhs: u128) -> u128 {
        vstd::wrapping::u128_specs::wrapping_mul(self, rhs)
    }

    fn from_u8(v: u8) -> (r: u128) {
        v as u128
    }

    fn plus(self, rhs: u128) -> (r: u128) {
        self.wrapping_add(rhs)
    }

    fn times(self, rhs: u128) -> (r: u128) {
        self.wrapping_mul(rhs)
    }

    fn same(&self, rhs: &u128) -> (b: bool) {
        *self == *rhs
    }

    proof fn lemma_add_zero(x: u128) {
    }

    proof fn lemma_mul_one(x: u128) {
    }

    proof fn lemma_mul_zero(x: u128) {
    }
}

} // verus!
