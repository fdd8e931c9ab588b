//! External-tagged payload range selection.

use core::ops::Range;
use vstd::prelude::*;

use crate::address::SpanAddress;

use core::marker::PhantomData;
use crate::__private::{
    OwnerAdapter, RootInputAccess, SchemaSupport, TaggedPayloadPatch, TaggedPayloadSupport,
};
use crate::access::{ExclusiveInput, SharedInput};
use crate::error::LayoutError;
use crate::mutation::{checked_range, checked_range_spec, range_pair, splice};

verus! {

/// Selects the exact storage range for a payload associated with a proved tag.
///
/// Tag decoding and variant selection remain schema-specific work; this helper
/// only preserves checked offset arithmetic for the selected payload.
pub fn checked_payload_range(available: usize, payload_offset: usize, payload_size: usize) -> (r:
    Result<Range<usize>, LayoutError>)
    ensures
        range_pair(r) == checked_range_spec(available, payload_offset, payload_size),
{
    checked_range(available, payload_offset, payload_size)
}

/// Checks both a tag field and a payload field range before either is accessed;
/// the tag range is checked first.
pub fn checked_tagged_ranges(
    available: usize,
    tag_offset: usize,
    tag_size: usize,
    payload_offset: usize,
    payload_size: usize,
) -> (r: Result<(Range<usize>, Range<usize>), LayoutError>)
    ensures
        match checked_range_spec(available, tag_offset, tag_size) {
            Err(e) => r == Err::<(Range<usize>, Range<usize>), LayoutError>(e),
            Ok(tag) => match checked_range_spec(available, payload_offset, payload_size) {
                Err(e) => r == Err::<(Range<usize>, Range<usize>), LayoutError>(e),
                Ok(payload) => r matches Ok((t, p)) && (t.start, t.end) == tag && (p.start, p.end)
                    == payload,
            },
        },
{
    let tag = match checked_range(available, tag_offset, tag_size) {
        Ok(tag) => tag,
        Err(e) => return Err(e),
    };
    let payload = match checked_payload_range(available, payload_offset, payload_size) {
        Ok(payload) => payload,
        Err(e) => return Err(e),
    };
    Ok((tag, payload))
}

/// Why selecting the payload at `payload_offset` of `root` failed with
/// `error`: the payload range is out of bounds, or the payload bytes are
/// misaligned for the payload wire, or they are not a valid payload of the
/// variant named by `tag`. Range and alignment failures are the owner's
/// mapping of the layout error; a validation failure is the payload
/// support's own error.
pub open spec fn selection_failed<Payload: TaggedPayloadSupport>(
    root: Seq<u8>,
    tag: Payload::Tag,
    payload_offset: usize,
    error: <Payload::Owner as OwnerAdapter>::AccessError,
) -> bool {
    let size = vstd::layout::size_of::<Payload::Wire>();
    let align = vstd::layout::align_of::<Payload::Wire>();
    let bytes = root.subrange(payload_offset as int, payload_offset + size);
    match checked_range_spec(root.len() as usize, payload_offset, size as usize) {
        Err(e) => call_ensures(<Payload::Owner as OwnerAdapter>::access_layout, (e,), error),
        Ok(_) => {
            ||| exists|address: usize|
                #![trigger call_ensures(
                    <Payload::Owner as OwnerAdapter>::access_layout,
                    (LayoutError::Misaligned { required: align as usize, address },),
                    error,
                )]
                address % (align as usize) != 0 && call_ensures(
                    <Payload::Owner as OwnerAdapter>::access_layout,
                    (LayoutError::Misaligned { required: align as usize, address },),
                    error,
                )
            ||| !Payload::selected_valid(tag, bytes) && exists|payload: SharedInput<Payload::Wire>|
                #![trigger call_ensures(Payload::validate_selected, (tag, payload), Err::<(), <Payload::Owner as OwnerAdapter>::AccessError>(error))]
                payload@ == bytes && call_ensures(
                    Payload::validate_selected,
                    (tag, payload),
                    Err::<(), <Payload::Owner as OwnerAdapter>::AccessError>(error),
                )
        },
    }
}

/// A proved logical external tag paired with the selected payload location.
///
/// It keeps no reference to tag storage and offers no tag mutation: the tag
/// is an already decoded logical value and the payload is the only selected
/// location.
pub struct TaggedRefSelection<'wire, Payload: TaggedPayloadSupport> {
    tag: Payload::Tag,
    payload: SharedInput<'wire, Payload::Wire>,
}

impl<'wire, Payload: TaggedPayloadSupport> Clone for TaggedRefSelection<'wire, Payload> {
    fn clone(&self) -> (r: Self)
        ensures
            r == *self,
    {
        *self
    }
}

impl<'wire, Payload: TaggedPayloadSupport> Copy for TaggedRefSelection<'wire, Payload> {

}

impl<'wire, Payload: TaggedPayloadSupport> View for TaggedRefSelection<'wire, Payload> {
    type V = Seq<u8>;

    closed spec fn view(&self) -> Seq<u8> {
        self.payload@
    }
}

impl<'wire, Payload: TaggedPayloadSupport> TaggedRefSelection<'wire, Payload> {
    /// The proved logical tag.
    pub closed spec fn selected_tag(&self) -> Payload::Tag {
        self.tag
    }

    /// Whether the payload is valid for the selected tag; every selection is
    /// built by a successful proof.
    pub open spec fn wf(&self) -> bool {
        Payload::selected_valid(self.selected_tag(), self@)
    }

    /// Selects the payload at a checked offset of the root and proves exactly
    /// the variant named by the already validated sibling tag.
    pub fn prove_at<Root: SchemaSupport>(
        root: SharedInput<'wire, Root::Wire>,
        tag: Payload::Tag,
        payload_offset: usize,
        token: Root::Token,
    ) -> (r: Result<Self, <Payload::Owner as OwnerAdapter>::AccessError>)
        ensures
            checked_range_spec(
                root@.len() as usize,
                payload_offset,
                vstd::layout::size_of::<Payload::Wire>() as usize,
            ) is Err ==> r is Err,
            r is Ok ==> Payload::selected_valid(
                tag,
                root@.subrange(
                    payload_offset as int,
                    payload_offset + vstd::layout::size_of::<Payload::Wire>(),
                ),
            ),
            r matches Ok(selection) ==> selection.selected_tag() == tag
                && selection@ == root@.subrange(
                payload_offset as int,
                payload_offset + vstd::layout::size_of::<Payload::Wire>(),
            ) && selection.wf(),
            r matches Err(error) ==> selection_failed::<Payload>(
                root@,
                tag,
                payload_offset,
                error,
            ),
            checked_range_spec(
                root@.len() as usize,
                payload_offset,
                vstd::layout::size_of::<Payload::Wire>() as usize,
            ) is Ok && vstd::layout::align_of::<Payload::Wire>() == 1 && Payload::selected_valid(
                tag,
                root@.subrange(
                    payload_offset as int,
                    payload_offset + vstd::layout::size_of::<Payload::Wire>(),
                ),
            ) ==> r is Ok,
    {
        let payload = match root.subrange::<Payload::Wire>(payload_offset) {
            Ok(payload) => payload,
            Err(e) => {
                let error = <Payload::Owner as OwnerAdapter>::access_layout(e);
                vstd::layout::layout_for_type_is_valid::<Payload::Wire>();
                proof {
                    if let LayoutError::Misaligned { required, address } = e {
                        assert(call_ensures(
                            <Payload::Owner as OwnerAdapter>::access_layout,
                            (LayoutError::Misaligned { required, address },),
                            error,
                        ));
                    }
                }
                return Err(error);
            },
        };
        match Payload::validate_selected(tag, payload) {
            Ok(()) => {},
            Err(e) => return Err(e),
        }
        Ok(TaggedRefSelection { tag, payload })
    }

    /// Completes a selected-payload proof; the payload support's token
    /// confines this to the payload's own support.
    pub fn prove_selected(
        tag: Payload::Tag,
        payload: SharedInput<'wire, Payload::Wire>,
        token: Payload::Token,
    ) -> (r: Result<Self, <Payload::Owner as OwnerAdapter>::AccessError>)
        ensures
            r is Ok <==> Payload::selected_valid(tag, payload@),
            r matches Ok(selection) ==> selection.selected_tag() == tag && selection@ == payload@
                && selection.wf(),
    {
        match Payload::validate_selected(tag, payload) {
            Ok(()) => {},
            Err(e) => return Err(e),
        }
        Ok(TaggedRefSelection { tag, payload })
    }

    /// Returns the proved logical tag; it carries no storage capability.
    pub fn tag(&self) -> (r: Payload::Tag)
        ensures
            r == self.selected_tag(),
    {
        self.tag
    }

    /// Splits this selection into its tag and payload input.
    pub fn into_parts(self, token: Payload::Token) -> (r: (
        Payload::Tag,
        SharedInput<'wire,
        Payload::Wire>,
    ))
        ensures
            r.0 == self.selected_tag(),
            r.1@ == self@,
    {
        (self.tag, self.payload)
    }

    /// Creates the read capability of exactly this selection.
    pub fn make_ref(&self) -> (r: Payload::Ref<'wire>)
        ensures
            call_ensures(Payload::make_ref, (*self,), r),
    {
        Payload::make_ref(*self)
    }

    /// Materializes only the selected logical payload variant.
    pub fn materialize(&self) -> (r: Payload::Logical<'wire>)
        ensures
            call_ensures(Payload::materialize_selected, (*self,), r),
    {
        Payload::materialize_selected(*self)
    }
}

/// An exclusive selection of one proved external-tagged payload.
///
/// It keeps only the decoded tag and a short payload reborrow, so payload
/// fields can change while the sibling tag cannot.
pub struct TaggedMutSelection<'view, Payload: TaggedPayloadSupport> {
    tag: Payload::Tag,
    payload: ExclusiveInput<'view, Payload::Wire>,
}

impl<'view, Payload: TaggedPayloadSupport> View for TaggedMutSelection<'view, Payload> {
    type V = Seq<u8>;

    closed spec fn view(&self) -> Seq<u8> {
        self.payload@
    }
}

impl<'view, Payload: TaggedPayloadSupport> TaggedMutSelection<'view, Payload> {
    /// The borrowed payload storage: what it holds once this selection is
    /// released is `final(self.storage())`.
    pub closed spec fn storage(&self) -> &'view mut [u8] {
        self.payload.storage()
    }

    /// Once the selection is released, the borrowed payload storage holds
    /// what its view last showed.
    pub proof fn lemma_released(self)
        requires
            has_resolved(self),
        ensures
            final(self.storage())@ == self@,
    {
        self.payload.lemma_released();
    }

    /// The proved logical tag.
    pub closed spec fn selected_tag(&self) -> Payload::Tag {
        self.tag
    }

    /// Whether the payload is valid for the selected tag; every selection is
    /// built by a successful proof.
    pub open spec fn wf(&self) -> bool {
        Payload::selected_valid(self.selected_tag(), self@)
    }

    /// Selects the payload at a checked offset of the exclusive root and
    /// proves exactly the variant named by the already validated sibling tag.
    pub fn prove_at<'parent, Root: SchemaSupport>(
        root: &'view mut ExclusiveInput<'parent, Root::Wire>,
        tag: Payload::Tag,
        payload_offset: usize,
        token: Root::Token,
    ) -> (r: Result<Self, <Payload::Owner as OwnerAdapter>::AccessError>)
        ensures
            checked_range_spec(
                old(root)@.len() as usize,
                payload_offset,
                vstd::layout::size_of::<Payload::Wire>() as usize,
            ) is Err ==> r is Err,
            r is Ok ==> Payload::selected_valid(
                tag,
                old(root)@.subrange(
                    payload_offset as int,
                    payload_offset + vstd::layout::size_of::<Payload::Wire>(),
                ),
            ),
            r matches Ok(selection) ==> selection.selected_tag() == tag && selection@ == old(
                root,
            )@.subrange(
                payload_offset as int,
                payload_offset + vstd::layout::size_of::<Payload::Wire>(),
            ) && selection.wf(),
            r matches Err(error) ==> selection_failed::<Payload>(
                old(root)@,
                tag,
                payload_offset,
                error,
            ),
            r is Err ==> final(root)@ == old(root)@,
            r matches Ok(selection) ==> final(root)@ == old(root)@.subrange(0, payload_offset as int)
                + final(selection.storage())@ + old(root)@.subrange(
                payload_offset + vstd::layout::size_of::<Payload::Wire>(),
                old(root)@.len() as int,
            ),
            final(final(root).storage())@ == final(old(root).storage())@,
            checked_range_spec(
                old(root)@.len() as usize,
                payload_offset,
                vstd::layout::size_of::<Payload::Wire>() as usize,
            ) is Ok && vstd::layout::align_of::<Payload::Wire>() == 1 && Payload::selected_valid(
                tag,
                old(root)@.subrange(
                    payload_offset as int,
                    payload_offset + vstd::layout::size_of::<Payload::Wire>(),
                ),
            ) ==> r is Ok,
    {
        vstd::layout::layout_for_type_is_valid::<Payload::Wire>();
        let payload = match root.subrange_mut::<Payload::Wire>(payload_offset) {
            Ok(payload) => payload,
            Err(e) => {
                let error = <Payload::Owner as OwnerAdapter>::access_layout(e);
                vstd::layout::layout_for_type_is_valid::<Payload::Wire>();
                proof {
                    if let LayoutError::Misaligned { required, address } = e {
                        assert(call_ensures(
                            <Payload::Owner as OwnerAdapter>::access_layout,
                            (LayoutError::Misaligned { required, address },),
                            error,
                        ));
                    }
                }
                return Err(error);
            },
        };
        match Payload::validate_selected(tag, payload.shared()) {
            Ok(()) => {},
            Err(e) => {
                proof {
                    payload.lemma_released();
                    assert(old(root)@ =~= old(root)@.subrange(0, payload_offset as int) + payload@
                        + old(root)@.subrange(
                        payload_offset + vstd::layout::size_of::<Payload::Wire>(),
                        old(root)@.len() as int,
                    ));
                }
                return Err(e);
            },
        }
        Ok(TaggedMutSelection { tag, payload })
    }

    /// Returns the selected logical tag without exposing its sibling storage.
    pub fn tag(&self) -> (r: Payload::Tag)
        ensures
            r == self.selected_tag(),
    {
        self.tag
    }

    /// Splits this selection into its tag and exclusive payload input.
    pub fn into_parts(self, token: Payload::Token) -> (r: (
        Payload::Tag,
        ExclusiveInput<'view,
        Payload::Wire>,
    ))
        ensures
            r.0 == self.selected_tag(),
            r.1@ == self@,
            r.1.storage() == self.storage(),
    {
        (self.tag, self.payload)
    }

    /// Consumes this reborrow to create the payload mutation capability of
    /// the selected variant only.
    pub fn make_mut(self) -> (r: Payload::Mut<'view>)
        ensures
            call_ensures(Payload::make_mut, (self,), r),
    {
        Payload::make_mut(self)
    }
}

/// The first range failure of a tagged commit over `len` bytes: the tag
/// range is checked before the payload range.
pub open spec fn tagged_ranges_error(
    len: usize,
    tag_offset: usize,
    tag_size: usize,
    payload_offset: usize,
    payload_size: usize,
) -> Option<LayoutError> {
    match checked_range_spec(len, tag_offset, tag_size) {
        Err(e) => Some(e),
        Ok(_) => match checked_range_spec(len, payload_offset, payload_size) {
            Err(e) => Some(e),
            Ok(_) => None,
        },
    }
}

/// The root bytes after the payload bytes at `ps..pe` are replaced by
/// `payload` and then the tag bytes at `ts..te` by `tag`.
pub open spec fn payload_then_tag(
    root: Seq<u8>,
    ts: int,
    ps: int,
    payload: Seq<u8>,
    tag: Seq<u8>,
) -> Seq<u8> {
    splice(splice(root, ps, payload), ts, tag)
}

/// Commits a preflighted tagged-payload patch, then stores the tag.
///
/// Both static ranges are checked before any byte changes; a failed check
/// leaves the root unchanged. Only then is the payload patch committed, and
/// `store_tag` runs last on the exact tag range of the root as the payload
/// commit left it. No payload code can reach the tag storage.
pub fn commit_payload_before_tag<Root, Payload, TagWire, P, StoreTag>(
    root: &mut ExclusiveInput<'_, Root>,
    tag_offset: usize,
    payload_offset: usize,
    patch: &P,
    token: Root::Token,
    store_tag: StoreTag,
) -> (r: Result<(), <Payload::Owner as OwnerAdapter>::MutationError>) where
    Root: RootInputAccess,
    Payload: TaggedPayloadSupport,
    P: TaggedPayloadPatch<Payload>,
    StoreTag: FnOnce(&mut [u8]),

    requires
        checked_range_spec(
            old(root)@.len() as usize,
            payload_offset,
            vstd::layout::size_of::<Payload::Wire>() as usize,
        ) is Ok ==> patch.preflighted(
            old(root)@.subrange(
                payload_offset as int,
                payload_offset + vstd::layout::size_of::<Payload::Wire>(),
            ),
        ),
        forall|tag: &mut [u8]|
            tag@.len() == vstd::layout::size_of::<TagWire>() ==> call_requires(store_tag, (tag,)),
        forall|tag: &mut [u8]| #[trigger] call_ensures(store_tag, (tag,), ()) ==> final(tag)@.len() == tag@.len(),
    ensures
        final(final(root).storage())@ == final(old(root).storage())@,
        r matches Err(error) ==> match tagged_ranges_error(
            old(root)@.len() as usize,
            tag_offset,
            vstd::layout::size_of::<TagWire>() as usize,
            payload_offset,
            vstd::layout::size_of::<Payload::Wire>() as usize,
        ) {
            Some(e) => call_ensures(<Payload::Owner as OwnerAdapter>::mutation_layout, (e,), error),
            None => false,
        },
        ({
            let ts = tag_offset as int;
            let ps = payload_offset as int;
            let tag_size = vstd::layout::size_of::<TagWire>();
            let payload_size = vstd::layout::size_of::<Payload::Wire>();
            if checked_range_spec(old(root)@.len() as usize, tag_offset, tag_size as usize) is Err
                || checked_range_spec(
                    old(root)@.len() as usize,
                    payload_offset,
                    payload_size as usize,
                ) is Err {
                r is Err && final(root)@ == old(root)@
            } else {
                let patched = splice(
                    old(root)@,
                    ps,
                    patch.committed(old(root)@.subrange(ps, ps + payload_size)),
                );
                r is Ok && exists|tag: &mut [u8]|
                    #[trigger] call_ensures(store_tag, (tag,), ())
                        && tag@ == patched.subrange(ts, ts + tag_size)
                        && final(root)@ == splice(patched, ts, final(tag)@)
            }
        }),
{
    vstd::layout::layout_for_type_is_valid::<TagWire>();
    vstd::layout::layout_for_type_is_valid::<Payload::Wire>();
    let (tag_range, payload_range) = match checked_tagged_ranges(
        root.len(),
        tag_offset,
        core::mem::size_of::<TagWire>(),
        payload_offset,
        core::mem::size_of::<Payload::Wire>(),
    ) {
        Ok(ranges) => ranges,
        Err(e) => return Err(<Payload::Owner as OwnerAdapter>::mutation_layout(e)),
    };
    let ghost before = root@;
    let payload_bytes = root.window_mut(payload_range.start, payload_range.end);
    let at = SpanAddress::of(payload_bytes);
    let payload = ExclusiveInput::<Payload::Wire> { bytes: payload_bytes, at, marker: PhantomData };
    let payload_token = Payload::input_token(&payload);
    let ExclusiveInput { bytes: destination, .. } = payload;
    patch.commit(destination, payload_token);
    let ghost patched = root@;
    let tag = root.window_mut(tag_range.start, tag_range.end);
    store_tag(tag);
    Ok(())
}

/// Commits a preflighted borrowed logical payload through `commit_payload`,
/// then stores the tag through `store_tag`.
///
/// Both static ranges are checked before any byte changes; a failed check
/// leaves the root unchanged. `commit_payload` sees only the payload range,
/// and `store_tag` runs last on the tag range of the root as the payload
/// commit left it.
pub fn commit_payload_before_tag_with<Root, Payload, TagWire, CommitPayload, StoreTag>(
    root: &mut ExclusiveInput<'_, Root>,
    tag_offset: usize,
    payload_offset: usize,
    commit_payload: CommitPayload,
    token: Root::Token,
    store_tag: StoreTag,
) -> (r: Result<(), <Payload::Owner as OwnerAdapter>::MutationError>) where
    Root: RootInputAccess,
    Payload: TaggedPayloadSupport,
    CommitPayload: FnOnce(&mut [u8]),
    StoreTag: FnOnce(&mut [u8]),

    requires
        forall|payload: &mut [u8]|
            payload@.len() == vstd::layout::size_of::<Payload::Wire>() ==> call_requires(
                commit_payload,
                (payload,),
            ),
        forall|payload: &mut [u8]| #[trigger] call_ensures(commit_payload, (payload,), ())
            ==> final(payload)@.len() == payload@.len(),
        forall|tag: &mut [u8]|
            tag@.len() == vstd::layout::size_of::<TagWire>() ==> call_requires(store_tag, (tag,)),
        forall|tag: &mut [u8]| #[trigger] call_ensures(store_tag, (tag,), ()) ==> final(tag)@.len() == tag@.len(),
    ensures
        final(final(root).storage())@ == final(old(root).storage())@,
        r matches Err(error) ==> match tagged_ranges_error(
            old(root)@.len() as usize,
            tag_offset,
            vstd::layout::size_of::<TagWire>() as usize,
            payload_offset,
            vstd::layout::size_of::<Payload::Wire>() as usize,
        ) {
            Some(e) => call_ensures(<Payload::Owner as OwnerAdapter>::mutation_layout, (e,), error),
            None => false,
        },
        ({
            let ts = tag_offset as int;
            let ps = payload_offset as int;
            let tag_size = vstd::layout::size_of::<TagWire>();
            let payload_size = vstd::layout::size_of::<Payload::Wire>();
            if checked_range_spec(old(root)@.len() as usize, tag_offset, tag_size as usize) is Err
                || checked_range_spec(
                    old(root)@.len() as usize,
                    payload_offset,
                    payload_size as usize,
                ) is Err {
                r is Err && final(root)@ == old(root)@
            } else {
                r is Ok && exists|payload: &mut [u8], tag: &mut [u8]|
                    #[trigger] call_ensures(commit_payload, (payload,), ())
                        && #[trigger] call_ensures(store_tag, (tag,), ())
                        && payload@ == old(root)@.subrange(ps, ps + payload_size)
                        && tag@ == splice(old(root)@, ps, final(payload)@).subrange(ts, ts + tag_size)
                        && final(root)@ == splice(
                            splice(old(root)@, ps, final(payload)@),
                            ts,
                            final(tag)@,
                        )
            }
        }),
{
    vstd::layout::layout_for_type_is_valid::<TagWire>();
    vstd::layout::layout_for_type_is_valid::<Payload::Wire>();
    let (tag_range, payload_range) = match checked_tagged_ranges(
        root.len(),
        tag_offset,
        core::mem::size_of::<TagWire>(),
        payload_offset,
        core::mem::size_of::<Payload::Wire>(),
    ) {
        Ok(ranges) => ranges,
        Err(e) => return Err(<Payload::Owner as OwnerAdapter>::mutation_layout(e)),
    };
    let payload = root.window_mut(payload_range.start, payload_range.end);
    commit_payload(payload);
    let tag = root.window_mut(tag_range.start, tag_range.end);
    store_tag(tag);
    Ok(())
}

} // verus!
