//! Which of the interface's textures are uploaded, and when.
//!
//! A new colour texture is not uploaded at once: it waits in a queue, of which one texture is
//! taken per frame, the largest of those on screen.

use vstd::prelude::*;

verus! {

/// How many new colour textures are uploaded per frame.
pub const MAX_NEW_COLOR_TEXTURES_PER_FRAME: usize = 1;

/// The identity of a texture.
#[derive(Debug, Clone, Copy, PartialEq, Eq, Hash, Structural)]
pub enum TextureKey {
    Managed(u64),
    User(u64),
}

/// A texture that waits to be uploaded.
#[derive(Debug, Clone, Copy, PartialEq, Eq, Structural)]
pub struct PendingTexture {
    pub key: TextureKey,
    /// Pixels of its image.
    pub area: usize,
}

/// What is to be done with an image that is set.
#[derive(Debug, Clone, Copy, PartialEq, Eq, Structural)]
pub enum ImageDecision {
    /// It becomes the texture.
    Store,
    /// It waits, in place of one that waited before.
    Wait,
    /// It changes a part of a texture that is there, which is not done.
    Ignore,
}

/// The textures that are uploaded, and those that wait.
#[derive(Debug)]
pub struct TextureQueue {
    uploaded: Vec<TextureKey>,
    pending: Vec<PendingTexture>,
}

/// The textures that are uploaded, and those that wait, the first that came first.
#[verifier::ext_equal]
pub ghost struct TexturesView {
    pub uploaded: Set<TextureKey>,
    pub pending: Seq<PendingTexture>,
}

impl View for TextureQueue {
    type V = TexturesView;

    closed spec fn view(&self) -> TexturesView {
        TexturesView { uploaded: self.uploaded@.to_set(), pending: self.pending@ }
    }
}

/// Whether a texture waits.
pub open spec fn is_pending(pending: Seq<PendingTexture>, key: TextureKey) -> bool {
    exists|i: int| 0 <= i < pending.len() && (#[trigger] pending[i]).key == key
}

/// Whether no texture waits twice.
pub open spec fn pending_once(pending: Seq<PendingTexture>) -> bool {
    forall|i: int, j: int|
        0 <= i < j < pending.len() ==> (#[trigger] pending[i]).key != (#[trigger] pending[j]).key
}

/// The queue with a texture's image: in the place of the one that waited before, else at the
/// end.
pub open spec fn with_pending(pending: Seq<PendingTexture>, texture: PendingTexture) -> Seq<
    PendingTexture,
> {
    if is_pending(pending, texture.key) {
        pending.map_values(
            |waiting: PendingTexture| if waiting.key == texture.key {
                texture
            } else {
                waiting
            },
        )
    } else {
        pending.push(texture)
    }
}

/// What is to be done with an image: a whole colour image for a texture that is not there waits;
/// any other whole image is stored, and so is a partial one for a texture that is not there.
pub open spec fn image_decision(
    textures: TexturesView,
    key: TextureKey,
    partial: bool,
    color: bool,
) -> ImageDecision {
    let there = textures.uploaded.contains(key);
    if !partial && !there && color {
        ImageDecision::Wait
    } else if !partial || !there {
        ImageDecision::Store
    } else {
        ImageDecision::Ignore
    }
}

/// Whether a waiting texture is the one to upload: it is on screen, none on screen is larger,
/// and of those as large it is the last.
pub open spec fn is_next_upload(
    pending: Seq<PendingTexture>,
    visible: Seq<TextureKey>,
    at: int,
) -> bool {
    &&& 0 <= at < pending.len()
    &&& visible.contains(pending[at].key)
    &&& forall|i: int|
        0 <= i < pending.len() && visible.contains((#[trigger] pending[i]).key) ==> pending[i].area
            <= pending[at].area && (pending[i].area == pending[at].area ==> i <= at)
}

/// The waiting textures that are not freed.
pub open spec fn not_freed(pending: Seq<PendingTexture>, freed: Seq<TextureKey>) -> Seq<
    PendingTexture,
> {
    pending.filter(|waiting: PendingTexture| !freed.contains(waiting.key))
}

fn holds_key(keys: &Vec<TextureKey>, key: TextureKey) -> (holds: bool)
    ensures
        holds == keys@.contains(key),
{
    let mut i: usize = 0;
    while i < keys.len()
        invariant
            i <= keys@.len(),
            forall|k: int| 0 <= k < i ==> #[trigger] keys@[k] != key,
        decreases keys@.len() - i,
    {
        if keys[i] == key {
            return true;
        }
        i = i + 1;
    }
    false
}

impl TextureQueue {
    /// What holds of the queue at all times: no texture waits twice.
    pub open spec fn wf(self) -> bool {
        pending_once(self@.pending)
    }

    /// No textures.
    pub fn new() -> (queue: Self)
        ensures
            queue.wf(),
            queue@ == (TexturesView { uploaded: Set::empty(), pending: Seq::empty() }),
    {
        let queue = TextureQueue { uploaded: Vec::new(), pending: Vec::new() };
        assert(queue@.uploaded =~= Set::empty());
        queue
    }

    /// Whether a texture is uploaded.
    pub fn is_uploaded(&self, key: TextureKey) -> (uploaded: bool)
        ensures
            uploaded == self@.uploaded.contains(key),
    {
        holds_key(&self.uploaded, key)
    }

    fn note_uploaded(&mut self, key: TextureKey)
        ensures
            final(self)@ == (TexturesView {
                uploaded: old(self)@.uploaded.insert(key),
                ..old(self)@
            }),
    {
        if !holds_key(&self.uploaded, key) {
            self.uploaded.push(key);
            let ghost before = old(self).uploaded@;
            assert(before.push(key).to_set() =~= before.to_set().insert(key)) by {
                broadcast use vstd::seq_lib::group_seq_properties;

            }
        } else {
            assert(self@.uploaded =~= old(self)@.uploaded.insert(key));
        }
    }

    /// Takes in an image that is set for a texture; tells what is to be done with it.
    pub fn set_image(&mut self, key: TextureKey, partial: bool, color: bool, area: usize) -> (
        decision: ImageDecision)
        requires
            old(self).wf(),
        ensures
            final(self).wf(),
            decision == image_decision(old(self)@, key, partial, color),
            final(self)@ == match decision {
                ImageDecision::Store => TexturesView {
                    uploaded: old(self)@.uploaded.insert(key),
                    ..old(self)@
                },
                ImageDecision::Wait => TexturesView {
                    pending: with_pending(old(self)@.pending, PendingTexture { key, area }),
                    ..old(self)@
                },
                ImageDecision::Ignore => old(self)@,
            },
    {
        let there = self.is_uploaded(key);
        if !partial && !there && color {
            self.wait(PendingTexture { key, area });
            ImageDecision::Wait
        } else if !partial || !there {
            self.note_uploaded(key);
            ImageDecision::Store
        } else {
            ImageDecision::Ignore
        }
    }

    fn wait(&mut self, texture: PendingTexture)
        requires
            old(self).wf(),
        ensures
            final(self).wf(),
            final(self)@ == (TexturesView {
                pending: with_pending(old(self)@.pending, texture),
                ..old(self)@
            }),
    {
        let ghost before = self@.pending;
        let mut i: usize = 0;
        while i < self.pending.len()
            invariant
                i <= before.len(),
                *self == *old(self),
                before == self.pending@,
                pending_once(before),
                forall|k: int| 0 <= k < i ==> (#[trigger] before[k]).key != texture.key,
            decreases before.len() - i,
        {
            if self.pending[i].key == texture.key {
                self.pending.set(i, texture);
                proof {
                    assert(before[i as int].key == texture.key);
                    assert forall|k: int| i < k < before.len() implies (
                    #[trigger] before[k]).key != texture.key by {}
                    assert(self.pending@ =~= with_pending(before, texture));
                    assert(pending_once(self.pending@));
                }
                return;
            }
            i = i + 1;
        }
        self.pending.push(texture);
        assert(!is_pending(before, texture.key));
    }

    /// Takes the waiting texture that is to be uploaded, given those on screen.
    pub fn next_upload(&mut self, visible: &Vec<TextureKey>) -> (taken: Option<TextureKey>)
        requires
            old(self).wf(),
        ensures
            final(self).wf(),
            match taken {
                Some(key) => exists|at: int| #[trigger]
                    is_next_upload(old(self)@.pending, visible@, at) && old(self)@.pending[at].key
                        == key && final(self)@ == (TexturesView {
                        uploaded: old(self)@.uploaded.insert(key),
                        pending: old(self)@.pending.remove(at),
                    }),
                None => {
                    &&& final(self)@ == old(self)@
                    &&& forall|i: int|
                        0 <= i < old(self)@.pending.len() ==> !visible@.contains(
                            (#[trigger] old(self)@.pending[i]).key,
                        )
                },
            },
    {
        let ghost before = self@.pending;
        let mut best: Option<usize> = None;
        let mut i: usize = 0;
        while i < self.pending.len()
            invariant
                i <= before.len(),
                *self == *old(self),
                before == self.pending@,
                match best {
                    Some(at) => {
                        &&& at < i
                        &&& is_next_upload(before.take(i as int), visible@, at as int)
                    },
                    None => forall|k: int|
                        0 <= k < i ==> !visible@.contains((#[trigger] before[k]).key),
                },
            decreases before.len() - i,
        {
            let texture = self.pending[i];
            let ghost seen = before.take(i as int);
            let ghost more = before.take(i + 1);
            assert(more[i as int] == texture);
            if holds_key(visible, texture.key) {
                let larger = match best {
                    Some(at) => texture.area >= self.pending[at].area,
                    None => true,
                };
                if larger {
                    proof {
                        assert forall|k: int|
                            0 <= k < more.len() && visible@.contains(
                                (#[trigger] more[k]).key,
                            ) implies more[k].area <= more[i as int].area && (more[k].area
                            == more[i as int].area ==> k <= i) by {
                            if k < i {
                                assert(seen[k] == more[k]);
                                assert(before[k] == more[k]);
                            }
                        }
                        assert(is_next_upload(more, visible@, i as int));
                    }
                    best = Some(i);
                } else {
                    proof {
                        let at = best->0 as int;
                        assert(more[at] == seen[at]);
                        assert forall|k: int|
                            0 <= k < more.len() && visible@.contains(
                                (#[trigger] more[k]).key,
                            ) implies more[k].area <= more[at].area && (more[k].area
                            == more[at].area ==> k <= at) by {
                            if k < i {
                                assert(seen[k] == more[k]);
                            }
                        }
                    }
                }
            } else if best.is_some() {
                proof {
                    let at = best->0 as int;
                    assert(more[at] == seen[at]);
                    assert forall|k: int|
                        0 <= k < more.len() && visible@.contains(
                            (#[trigger] more[k]).key,
                        ) implies more[k].area <= more[at].area && (more[k].area == more[at].area
                        ==> k <= at) by {
                        if k < i {
                            assert(seen[k] == more[k]);
                        }
                    }
                }
            }
            i = i + 1;
        }
        assert(before.take(i as int) =~= before);
        match best {
            Some(at) => {
                let texture = self.pending.remove(at);
                proof {
                    let after = before.remove(at as int);
                    assert forall|k: int, j: int| 0 <= k < j < after.len() implies (
                    #[trigger] after[k]).key != (#[trigger] after[j]).key by {
                        let k0 = if k < at {
                            k
                        } else {
                            k + 1
                        };
                        let j0 = if j < at {
                            j
                        } else {
                            j + 1
                        };
                        assert(after[k] == before[k0] && after[j] == before[j0]);
                    }
                }
                self.note_uploaded(texture.key);
                assert(is_next_upload(old(self)@.pending, visible@, at as int));
                Some(texture.key)
            },
            None => None,
        }
    }

    /// Forgets textures that are no longer used.
    pub fn free(&mut self, freed: &Vec<TextureKey>)
        requires
            old(self).wf(),
        ensures
            final(self).wf(),
            final(self)@ == (TexturesView {
                uploaded: old(self)@.uploaded.difference(freed@.to_set()),
                pending: not_freed(old(self)@.pending, freed@),
            }),
    {
        let ghost keys = self.uploaded@;
        let mut uploaded: Vec<TextureKey> = Vec::new();
        let mut i: usize = 0;
        while i < self.uploaded.len()
            invariant
                i <= keys.len(),
                *self == *old(self),
                keys == self.uploaded@,
                forall|key: TextureKey|
                    uploaded@.contains(key) <==> keys.take(i as int).contains(key)
                        && !freed@.contains(key),
            decreases keys.len() - i,
        {
            let key = self.uploaded[i];
            let ghost before = uploaded@;
            if !holds_key(freed, key) {
                uploaded.push(key);
            }
            proof {
                assert(keys.take(i + 1) =~= keys.take(i as int).push(key));
                assert forall|other: TextureKey|
                    uploaded@.contains(other) <==> keys.take(i + 1).contains(other)
                        && !freed@.contains(other) by {
                    broadcast use vstd::seq_lib::group_seq_properties;

                    assert(before.contains(other) <==> keys.take(i as int).contains(other)
                        && !freed@.contains(other));
                }
            }
            i = i + 1;
        }
        assert(keys.take(i as int) =~= keys);
        self.free_pending(freed);
        self.uploaded = uploaded;
        proof {
            assert(self@.uploaded =~= old(self)@.uploaded.difference(freed@.to_set())) by {
                assert forall|key: TextureKey|
                    uploaded@.to_set().contains(key) <==> keys.to_set().difference(
                        freed@.to_set(),
                    ).contains(key) by {
                    assert(uploaded@.to_set().contains(key) == uploaded@.contains(key));
                    assert(keys.to_set().contains(key) == keys.contains(key));
                    assert(freed@.to_set().contains(key) == freed@.contains(key));
                }
            }
        }
    }

    fn free_pending(&mut self, freed: &Vec<TextureKey>)
        requires
            old(self).wf(),
        ensures
            final(self).wf(),
            final(self).uploaded == old(self).uploaded,
            final(self)@ == (TexturesView {
                pending: not_freed(old(self)@.pending, freed@),
                ..old(self)@
            }),
    {
        reveal(Seq::filter);
        let ghost all = self@.pending;
        let mut kept: Vec<PendingTexture> = Vec::new();
        let mut i: usize = 0;
        assert(all.take(0) =~= Seq::empty());
        while i < self.pending.len()
            invariant
                i <= all.len(),
                *self == *old(self),
                all == self.pending@,
                pending_once(all),
                kept@ == not_freed(all.take(i as int), freed@),
                pending_once(kept@),
                forall|k: int|
                    0 <= k < kept@.len() ==> is_pending(
                        all.take(i as int),
                        (#[trigger] kept@[k]).key,
                    ),
            decreases all.len() - i,
        {
            reveal(Seq::filter);
            let texture = self.pending[i];
            let ghost before = kept@;
            proof {
                assert(all.take(i + 1).drop_last() =~= all.take(i as int));
                assert(all.take(i + 1).last() == texture);
            }
            if !holds_key(freed, texture.key) {
                proof {
                    assert forall|k: int| 0 <= k < before.len() implies (
                    #[trigger] before[k]).key != texture.key by {
                        assert(is_pending(all.take(i as int), before[k].key));
                        let j = choose|j: int|
                            0 <= j < i && (#[trigger] all.take(i as int)[j]).key == before[k].key;
                        assert(all[j].key != all[i as int].key);
                    }
                }
                kept.push(texture);
            }
            proof {
                assert forall|k: int| 0 <= k < kept@.len() implies is_pending(
                    all.take(i + 1),
                    (#[trigger] kept@[k]).key,
                ) by {
                    if k < before.len() {
                        assert(kept@[k] == before[k]);
                        assert(is_pending(all.take(i as int), before[k].key));
                        let j = choose|j: int|
                            0 <= j < i && (#[trigger] all.take(i as int)[j]).key == before[k].key;
                        assert(all.take(i + 1)[j] == all.take(i as int)[j]);
                    } else {
                        assert(all.take(i + 1)[i as int] == texture);
                    }
                }
            }
            i = i + 1;
        }
        assert(all.take(i as int) =~= all);
        self.pending = kept;
    }
}

/// Whether a number is the least power of two that is not below another; one, for nothing.
pub open spec fn is_power_above(size: int, power: int) -> bool {
    &&& size <= power
    &&& power == 1 || power < 2 * size
    &&& exists|n: nat| power == #[trigger] vstd::arithmetic::power2::pow2(n)
}

/// The least power of two that is not below a size.
pub fn power_of_two_size(size: u32) -> (power: u32)
    requires
        size <= 0x8000_0000,
    ensures
        is_power_above(size as int, power as int),
{
    let mut power: u32 = 1;
    let ghost mut n: nat = 0;
    proof {
        vstd::arithmetic::power2::lemma2_to64();
    }
    while power < size
        invariant
            power == vstd::arithmetic::power2::pow2(n),
            power == 1 || power < 2 * size,
            power >= 1,
            size <= 0x8000_0000,
        decreases 2 * size - power,
    {
        proof {
            vstd::arithmetic::power2::lemma_pow2_unfold(n + 1);
            n = n + 1;
        }
        power = power * 2;
    }
    power
}

/// There is never more than one texture to upload next.
pub proof fn the_next_upload_is_one(
    pending: Seq<PendingTexture>,
    visible: Seq<TextureKey>,
    at: int,
    other: int,
)
    requires
        is_next_upload(pending, visible, at),
        is_next_upload(pending, visible, other),
    ensures
        at == other,
{
}

/// An image that is set again while its texture waits does not make it wait twice or lose its
/// place.
pub proof fn a_waiting_texture_keeps_its_place(
    pending: Seq<PendingTexture>,
    at: int,
    area: usize,
)
    requires
        pending_once(pending),
        0 <= at < pending.len(),
    ensures
        with_pending(pending, PendingTexture { key: pending[at].key, area }) == pending.update(
            at,
            PendingTexture { key: pending[at].key, area },
        ),
{
    let texture = PendingTexture { key: pending[at].key, area };
    assert(is_pending(pending, texture.key));
    assert forall|i: int| 0 <= i < pending.len() && i != at implies (
    #[trigger] pending[i]).key != texture.key by {
        if i < at {
            assert(pending[i].key != pending[at].key);
        } else {
            assert(pending[at].key != pending[i].key);
        }
    }
    assert(with_pending(pending, texture) =~= pending.update(at, texture));
}

/// A whole colour image waits where its texture is not there yet, and every other whole image is
/// stored at once. A part of an image is stored where no texture is there, and else passed over.
pub proof fn what_becomes_of_an_image(textures: TexturesView, key: TextureKey, color: bool)
    ensures
        ({
            let there = textures.uploaded.contains(key);
            let whole = image_decision(textures, key, false, color);
            let part = image_decision(textures, key, true, color);
            &&& whole is Wait <==> color && !there
            &&& whole is Store <==> !color || there
            &&& part is Store <==> !there
            &&& part is Ignore <==> there
        }),
{
}

/// A texture that did not wait before is put behind the others, and none of them changes.
pub proof fn a_new_texture_waits_last(pending: Seq<PendingTexture>, texture: PendingTexture)
    requires
        forall|i: int| 0 <= i < pending.len() ==> (#[trigger] pending[i]).key != texture.key,
    ensures
        with_pending(pending, texture) == pending.push(texture),
{
}

/// The textures that are freed wait no more, and all others do, in their order.
pub proof fn freed_textures_wait_no_more(
    pending: Seq<PendingTexture>,
    freed: Seq<TextureKey>,
    texture: PendingTexture,
)
    ensures
        not_freed(pending.push(texture), freed) == if freed.contains(texture.key) {
            not_freed(pending, freed)
        } else {
            not_freed(pending, freed).push(texture)
        },
        not_freed(Seq::empty(), freed) == Seq::<PendingTexture>::empty(),
{
    reveal(Seq::filter);
    assert(pending.push(texture).drop_last() =~= pending);
}

} // verus!
