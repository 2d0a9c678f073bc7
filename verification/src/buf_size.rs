//! Buffer-size capabilities: presence-only host capabilities whose opaque
//! data carries nothing. Holding the descriptor at all is the capability, so
//! resolving one yields its marker value under any threading class.

use crate::feature::{Feature, ThreadingClass};
use vstd::prelude::*;

verus! {

/// The host guarantees a lower and an upper bound on block length.
#[derive(Clone, Copy, PartialEq, Eq, Structural, Debug)]
pub struct BoundedBlockLength;

impl Feature for BoundedBlockLength {
    open spec fn spec_uri() -> Seq<char> {
        "http://lv2plug.in/ns/ext/buf-size#boundedBlockLength"@
    }

    open spec fn spec_allows_class(class: ThreadingClass) -> bool {
        true
    }

    open spec fn spec_from_data(data: usize, class: ThreadingClass) -> Option<BoundedBlockLength> {
        Some(BoundedBlockLength)
    }

    fn uri() -> (r: String) {
        "http://lv2plug.in/ns/ext/buf-size#boundedBlockLength".to_owned()
    }

    fn allows_class(class: ThreadingClass) -> (r: bool) {
        true
    }

    fn from_feature_data(data: usize, class: ThreadingClass) -> (r: Option<BoundedBlockLength>) {
        Some(BoundedBlockLength)
    }
}

/// The host guarantees that every block has the same length.
#[derive(Clone, Copy, PartialEq, Eq, Structural, Debug)]
pub struct FixedBlockLength;

impl Feature for FixedBlockLength {
    open spec fn spec_uri() -> Seq<char> {
        "http://lv2plug.in/ns/ext/buf-size#fixedBlockLength"@
    }

    open spec fn spec_allows_class(class: ThreadingClass) -> bool {
        true
    }

    open spec fn spec_from_data(data: usize, class: ThreadingClass) -> Option<FixedBlockLength> {
        Some(FixedBlockLength)
    }

    fn uri() -> (r: String) {
        "http://lv2plug.in/ns/ext/buf-size#fixedBlockLength".to_owned()
    }

    fn allows_class(class: ThreadingClass) -> (r: bool) {
        true
    }

    fn from_feature_data(data: usize, class: ThreadingClass) -> (r: Option<FixedBlockLength>) {
        Some(FixedBlockLength)
    }
}

/// The host announces the largest block length it will use.
#[derive(Clone, Copy, PartialEq, Eq, Structural, Debug)]
pub struct MaxBlockLength;

impl Feature for MaxBlockLength {
    open spec fn spec_uri() -> Seq<char> {
        "http://lv2plug.in/ns/ext/buf-size#maxBlockLength"@
    }

    open spec fn spec_allows_class(class: ThreadingClass) -> bool {
        true
    }

    open spec fn spec_from_data(data: usize, class: ThreadingClass) -> Option<MaxBlockLength> {
        Some(MaxBlockLength)
    }

    fn uri() -> (r: String) {
        "http://lv2plug.in/ns/ext/buf-size#maxBlockLength".to_owned()
    }

    fn allows_class(class: ThreadingClass) -> (r: bool) {
        true
    }

    fn from_feature_data(data: usize, class: ThreadingClass) -> (r: Option<MaxBlockLength>) {
        Some(MaxBlockLength)
    }
}

/// The host announces the smallest block length it will use.
#[derive(Clone, Copy, PartialEq, Eq, Structural, Debug)]
pub struct MinBlockLength;

impl Feature for MinBlockLength {
    open spec fn spec_uri() -> Seq<char> {
        "http://lv2plug.in/ns/ext/buf-size#minBlockLength"@
    }

    open spec fn spec_allows_class(class: ThreadingClass) -> bool {
        true
    }

    open spec fn spec_from_data(data: usize, class: ThreadingClass) -> Option<MinBlockLength> {
        Some(MinBlockLength)
    }

    fn uri() -> (r: String) {
        "http://lv2plug.in/ns/ext/buf-size#minBlockLength".to_owned()
    }

    fn allows_class(class: ThreadingClass) -> (r: bool) {
        true
    }

    fn from_feature_data(data: usize, class: ThreadingClass) -> (r: Option<MinBlockLength>) {
        Some(MinBlockLength)
    }
}

/// The host announces the block length it will usually use.
#[derive(Clone, Copy, PartialEq, Eq, Structural, Debug)]
pub struct NominalBlockLength;

impl Feature for NominalBlockLength {
    open spec fn spec_uri() -> Seq<char> {
        "http://lv2plug.in/ns/ext/buf-size#nominalBlockLength"@
    }

    open spec fn spec_allows_class(class: ThreadingClass) -> bool {
        true
    }

    open spec fn spec_from_data(data: usize, class: ThreadingClass) -> Option<
        NominalBlockLength,
    > {
        Some(NominalBlockLength)
    }

    fn uri() -> (r: String) {
        "http://lv2plug.in/ns/ext/buf-size#nominalBlockLength".to_owned()
    }

    fn allows_class(class: ThreadingClass) -> (r: bool) {
        true
    }

    fn from_feature_data(data: usize, class: ThreadingClass) -> (r: Option<NominalBlockLength>) {
        Some(NominalBlockLength)
    }
}

/// The host guarantees that every block length is a power of two.
#[derive(Clone, Copy, PartialEq, Eq, Structural, Debug)]
pub struct PowerOf2BlockLength;

impl Feature for PowerOf2BlockLength {
    open spec fn spec_uri() -> Seq<char> {
        "http://lv2plug.in/ns/ext/buf-size#powerOf2BlockLength"@
    }

    open spec fn spec_allows_class(class: ThreadingClass) -> bool {
        true
    }

    open spec fn spec_from_data(data: usize, class: ThreadingClass) -> Option<
        PowerOf2BlockLength,
    > {
        Some(PowerOf2BlockLength)
    }

    fn uri() -> (r: String) {
        "http://lv2plug.in/ns/ext/buf-size#powerOf2BlockLength".to_owned()
    }

    fn allows_class(class: ThreadingClass) -> (r: bool) {
        true
    }

    fn from_feature_data(data: usize, class: ThreadingClass) -> (r: Option<PowerOf2BlockLength>) {
        Some(PowerOf2BlockLength)
    }
}

/// The host announces the maximum size of a sequence it will hand over; it
/// shares the largest-block-length URI.
#[derive(Clone, Copy, PartialEq, Eq, Structural, Debug)]
pub struct SequenceSize;

impl Feature for SequenceSize {
    open spec fn spec_uri() -> Seq<char> {
        "http://lv2plug.in/ns/ext/buf-size#maxBlockLength"@
    }

    open spec fn spec_allows_class(class: ThreadingClass) -> bool {
        true
    }

    open spec fn spec_from_data(data: usize, class: ThreadingClass) -> Option<SequenceSize> {
        Some(SequenceSize)
    }

    fn uri() -> (r: String) {
        "http://lv2plug.in/ns/ext/buf-size#maxBlockLength".to_owned()
    }

    fn allows_class(class: ThreadingClass) -> (r: bool) {
        true
    }

    fn from_feature_data(data: usize, class: ThreadingClass) -> (r: Option<SequenceSize>) {
        Some(SequenceSize)
    }
}

} // verus!
