use vstd::prelude::*;
use crate::children::{remove_value, vec_remove_value, lemma_remove_value_contents};
use crate::text::{decimal, push_decimal_u64, push_str};
use crate::callbacks::CallbackRegistry;

verus! {

/// One drag-and-drop operation.
#[derive(Clone, Copy, Debug, PartialEq, Eq)]
pub enum DragOperation {
    Copy,
    Move,
    Link,
}

/// A set of drag-and-drop operations.
#[derive(Clone, Copy, Debug, PartialEq, Eq)]
pub struct DragOperations {
    pub copy: bool,
    pub move_: bool,
    pub link: bool,
}

/// Modifier keys held during a drag; `primary` is Ctrl on Windows.
#[derive(Clone, Copy, Debug, PartialEq, Eq)]
pub struct DragModifiers {
    pub primary: bool,
    pub shift: bool,
    pub alt: bool,
}

/// Kinds of data a drag can carry.
#[derive(Clone, Copy, Debug, PartialEq, Eq)]
pub struct DragDataTypes {
    pub files: bool,
    pub image: bool,
    pub text: bool,
}

/// `DataPackageOperation` bits of WinRT.
pub const NATIVE_OPERATION_NONE: u32 = 0;
pub const NATIVE_OPERATION_COPY: u32 = 1;
pub const NATIVE_OPERATION_MOVE: u32 = 2;
pub const NATIVE_OPERATION_LINK: u32 = 4;

/// `DragDropModifiers` bits of WinRT.
pub const NATIVE_MODIFIER_SHIFT: u32 = 1;
pub const NATIVE_MODIFIER_CONTROL: u32 = 2;
pub const NATIVE_MODIFIER_ALT: u32 = 4;

/// Whether every bit of `flag` is set in `value`.
pub open spec fn has_flag(value: u32, flag: u32) -> bool {
    value & flag == flag
}

impl DragOperations {
    /// Whether `op` is in the set.
    pub open spec fn spec_contains(self, op: DragOperation) -> bool {
        match op {
            DragOperation::Copy => self.copy,
            DragOperation::Move => self.move_,
            DragOperation::Link => self.link,
        }
    }

    /// Whether `op` is in the set.
    pub fn contains_operation(&self, op: DragOperation) -> (r: bool)
        ensures
            r == self.spec_contains(op),
    {
        match op {
            DragOperation::Copy => self.copy,
            DragOperation::Move => self.move_,
            DragOperation::Link => self.link,
        }
    }
}

impl DragDataTypes {
    /// Whether no kind is present.
    pub open spec fn spec_is_empty(self) -> bool {
        !self.files && !self.image && !self.text
    }

    /// The kinds present in both sets.
    pub fn intersection(&self, other: &DragDataTypes) -> (r: DragDataTypes)
        ensures
            r.files == (self.files && other.files),
            r.image == (self.image && other.image),
            r.text == (self.text && other.text),
    {
        DragDataTypes {
            files: self.files && other.files,
            image: self.image && other.image,
            text: self.text && other.text,
        }
    }

    /// Whether no kind is present.
    pub fn is_empty(&self) -> (r: bool)
        ensures
            r == self.spec_is_empty(),
    {
        !self.files && !self.image && !self.text
    }
}

/// The native bits of an operation set.
pub open spec fn native_operation_bits(ops: DragOperations) -> u32 {
    ((if ops.copy { NATIVE_OPERATION_COPY } else { 0 }) + (if ops.move_ {
        NATIVE_OPERATION_MOVE
    } else {
        0
    }) + (if ops.link { NATIVE_OPERATION_LINK } else { 0 })) as u32
}

/// Maps an operation set to `DataPackageOperation` bits.
pub fn native_operations(value: DragOperations) -> (bits: u32)
    ensures
        bits == native_operation_bits(value),
{
    let mut result: u32 = NATIVE_OPERATION_NONE;
    if value.copy {
        result = result + NATIVE_OPERATION_COPY;
    }
    if value.move_ {
        result = result + NATIVE_OPERATION_MOVE;
    }
    if value.link {
        result = result + NATIVE_OPERATION_LINK;
    }
    result
}

/// Maps `DataPackageOperation` bits to the operations they allow; other bits are ignored.
pub fn operations(value: u32) -> (ops: DragOperations)
    ensures
        ops.copy == has_flag(value, NATIVE_OPERATION_COPY),
        ops.move_ == has_flag(value, NATIVE_OPERATION_MOVE),
        ops.link == has_flag(value, NATIVE_OPERATION_LINK),
{
    DragOperations {
        copy: value & NATIVE_OPERATION_COPY == NATIVE_OPERATION_COPY,
        move_: value & NATIVE_OPERATION_MOVE == NATIVE_OPERATION_MOVE,
        link: value & NATIVE_OPERATION_LINK == NATIVE_OPERATION_LINK,
    }
}

/// The native bits of a single (or no) operation.
pub open spec fn native_operation_bit(op: Option<DragOperation>) -> u32 {
    match op {
        Some(DragOperation::Copy) => NATIVE_OPERATION_COPY,
        Some(DragOperation::Move) => NATIVE_OPERATION_MOVE,
        Some(DragOperation::Link) => NATIVE_OPERATION_LINK,
        None => NATIVE_OPERATION_NONE,
    }
}

/// Maps an accepted operation to its `DataPackageOperation` value.
pub fn native_operation(value: Option<DragOperation>) -> (bits: u32)
    ensures
        bits == native_operation_bit(value),
{
    match value {
        Some(DragOperation::Copy) => NATIVE_OPERATION_COPY,
        Some(DragOperation::Move) => NATIVE_OPERATION_MOVE,
        Some(DragOperation::Link) => NATIVE_OPERATION_LINK,
        None => NATIVE_OPERATION_NONE,
    }
}

/// The operation a drop result reports: Move wins over Copy, Copy over Link.
pub open spec fn reported_operation(value: u32) -> Option<DragOperation> {
    if has_flag(value, NATIVE_OPERATION_MOVE) {
        Some(DragOperation::Move)
    } else if has_flag(value, NATIVE_OPERATION_COPY) {
        Some(DragOperation::Copy)
    } else if has_flag(value, NATIVE_OPERATION_LINK) {
        Some(DragOperation::Link)
    } else {
        None
    }
}

/// Maps `DataPackageOperation` bits of a finished drop to one operation.
pub fn operation(value: u32) -> (op: Option<DragOperation>)
    ensures
        op == reported_operation(value),
{
    if value & NATIVE_OPERATION_MOVE == NATIVE_OPERATION_MOVE {
        Some(DragOperation::Move)
    } else if value & NATIVE_OPERATION_COPY == NATIVE_OPERATION_COPY {
        Some(DragOperation::Copy)
    } else if value & NATIVE_OPERATION_LINK == NATIVE_OPERATION_LINK {
        Some(DragOperation::Link)
    } else {
        None
    }
}

/// Maps `DragDropModifiers` bits to the modifiers held: Control is the primary
/// modifier; mouse-button bits are ignored.
pub fn modifiers(value: u32) -> (m: DragModifiers)
    ensures
        m.primary == has_flag(value, NATIVE_MODIFIER_CONTROL),
        m.shift == has_flag(value, NATIVE_MODIFIER_SHIFT),
        m.alt == has_flag(value, NATIVE_MODIFIER_ALT),
{
    DragModifiers {
        primary: value & NATIVE_MODIFIER_CONTROL == NATIVE_MODIFIER_CONTROL,
        shift: value & NATIVE_MODIFIER_SHIFT == NATIVE_MODIFIER_SHIFT,
        alt: value & NATIVE_MODIFIER_ALT == NATIVE_MODIFIER_ALT,
    }
}

/// Law: mapping an operation to its native value and reading the native value
/// back gives the same operation.
pub proof fn lemma_operation_round_trip(op: DragOperation)
    ensures
        reported_operation(native_operation_bit(Some(op))) == Some(op),
{
    assert(1u32 & 2u32 == 0u32) by (bit_vector);
    assert(1u32 & 1u32 == 1u32) by (bit_vector);
    assert(2u32 & 2u32 == 2u32) by (bit_vector);
    assert(4u32 & 2u32 == 0u32) by (bit_vector);
    assert(4u32 & 1u32 == 0u32) by (bit_vector);
    assert(4u32 & 4u32 == 4u32) by (bit_vector);
}

/// Law: the native bits of an operation set read back as the same set.
pub proof fn lemma_operations_round_trip(ops: DragOperations)
    ensures
        has_flag(native_operation_bits(ops), NATIVE_OPERATION_COPY) == ops.copy,
        has_flag(native_operation_bits(ops), NATIVE_OPERATION_MOVE) == ops.move_,
        has_flag(native_operation_bits(ops), NATIVE_OPERATION_LINK) == ops.link,
{
    let v = native_operation_bits(ops);
    assert(v < 8);
    assert(forall|x: u32| #![auto] x < 8 ==> (x & 1u32 == 1u32 <==> x % 2 == 1)) by (bit_vector);
    assert(forall|x: u32| #![auto] x < 8 ==> (x & 2u32 == 2u32 <==> (x / 2) % 2 == 1)) by (bit_vector);
    assert(forall|x: u32| #![auto] x < 8 ==> (x & 4u32 == 4u32 <==> x / 4 == 1)) by (bit_vector);
}

/// The operation a drop target settles on while a drag hovers over it. A
/// disabled target, or one for which the drag carries no accepted data, takes
/// nothing. Otherwise the target's handler decides (`handler` is `None` when
/// the target has none, else what the handler returned); without a handler the
/// default operation applies. The result must be one the source allows.
pub open spec fn decided_operation(
    enabled: bool,
    available: DragDataTypes,
    allowed: DragOperations,
    handler: Option<Option<DragOperation>>,
    default_operation: DragOperation,
) -> Option<DragOperation> {
    if !enabled || available.spec_is_empty() {
        None
    } else {
        let chosen = match handler {
            Some(r) => r,
            None => Some(default_operation),
        };
        match chosen {
            Some(op) => if allowed.spec_contains(op) {
                Some(op)
            } else {
                None
            },
            None => None,
        }
    }
}

/// Law: a disabled drop target, or one to which the drag offers no accepted
/// data, accepts nothing, whatever its handler would return; whatever is
/// accepted is an operation the source allows; a handler's refusal is never
/// overridden by the default operation, and a handler's choice is never
/// replaced by another operation. An enabled target offered accepted data
/// takes an allowed operation that its handler chose, or, without a handler,
/// the allowed default operation.
pub proof fn lemma_decide_respects_target_and_source(
    enabled: bool,
    available: DragDataTypes,
    allowed: DragOperations,
    handler: Option<Option<DragOperation>>,
    default_operation: DragOperation,
)
    ensures
        !enabled ==> decided_operation(enabled, available, allowed, handler, default_operation) is None,
        !(available.files || available.image || available.text) ==> decided_operation(
            enabled,
            available,
            allowed,
            handler,
            default_operation,
        ) is None,
        decided_operation(enabled, available, allowed, handler, default_operation) matches Some(op)
            ==> enabled && (available.files || available.image || available.text) && match op {
            DragOperation::Copy => allowed.copy,
            DragOperation::Move => allowed.move_,
            DragOperation::Link => allowed.link,
        },
        handler == Some(None::<DragOperation>) ==> decided_operation(enabled, available, allowed, handler, default_operation) is None,
        handler matches Some(Some(h)) ==> (decided_operation(enabled, available, allowed, handler, default_operation)
            matches Some(op) ==> op == h),
        handler is None ==> (decided_operation(enabled, available, allowed, handler, default_operation)
            matches Some(op) ==> op == default_operation),
        forall|h: DragOperation|
            handler == Some(Some(h)) && enabled && !available.spec_is_empty() && #[trigger] allowed.spec_contains(h)
                ==> decided_operation(enabled, available, allowed, handler, default_operation) == Some(h),
        enabled && !available.spec_is_empty() && handler is None && allowed.spec_contains(default_operation)
            ==> decided_operation(enabled, available, allowed, handler, default_operation) == Some(default_operation),
{
}

/// Whether a target consults its handler for a hovering drag at all.
pub fn consults_handler(enabled: bool, available: DragDataTypes) -> (r: bool)
    ensures
        r == (enabled && !available.spec_is_empty()),
{
    enabled && !available.is_empty()
}

/// Decides the operation a drop target accepts during DragEnter or DragOver.
pub fn decide(
    enabled: bool,
    available: DragDataTypes,
    allowed: DragOperations,
    handler: Option<Option<DragOperation>>,
    default_operation: DragOperation,
) -> (op: Option<DragOperation>)
    ensures
        op == decided_operation(enabled, available, allowed, handler, default_operation),
{
    if !consults_handler(enabled, available) {
        return None;
    }
    let chosen = match handler {
        Some(r) => r,
        None => Some(default_operation),
    };
    match chosen {
        Some(op) => if allowed.contains_operation(op) {
            Some(op)
        } else {
            None
        },
        None => None,
    }
}

/// The operation carried out on drop: the one accepted while hovering, if the
/// source still allows it.
pub fn drop_operation(current: Option<DragOperation>, allowed: DragOperations) -> (op: Option<DragOperation>)
    ensures
        op == match current {
            Some(o) => if allowed.spec_contains(o) {
                Some(o)
            } else {
                None
            },
            None => None,
        },
{
    match current {
        Some(o) => if allowed.contains_operation(o) {
            Some(o)
        } else {
            None
        },
        None => None,
    }
}

/// How a drag source ended.
#[derive(Clone, Copy, Debug, PartialEq, Eq)]
pub enum DragSourceOutcome {
    Dropped(DragOperation),
    Cancelled,
}

/// The outcome a source reports for the native drop result bits.
pub fn source_outcome(drop_result: u32) -> (r: DragSourceOutcome)
    ensures
        r == match reported_operation(drop_result) {
            Some(op) => DragSourceOutcome::Dropped(op),
            None => DragSourceOutcome::Cancelled,
        },
{
    match operation(drop_result) {
        Some(op) => DragSourceOutcome::Dropped(op),
        None => DragSourceOutcome::Cancelled,
    }
}

/// What a drag source does when a drag starts.
#[derive(Clone, Copy, Debug, PartialEq, Eq)]
pub enum DragStart {
    /// The source is disabled: the drag is cancelled silently.
    Cancel,
    /// There is nothing to drag: the drag is cancelled and an
    /// empty-content error is reported.
    CancelEmpty,
    /// The drag goes ahead.
    Proceed,
}

/// Decides how a drag source answers DragStarting.
pub fn start_decision(enabled: bool, content_is_empty: bool) -> (r: DragStart)
    ensures
        r == (if !enabled {
            DragStart::Cancel
        } else if content_is_empty {
            DragStart::CancelEmpty
        } else {
            DragStart::Proceed
        }),
{
    if !enabled {
        DragStart::Cancel
    } else if content_is_empty {
        DragStart::CancelEmpty
    } else {
        DragStart::Proceed
    }
}

/// The name of the temporary directory that backs the files of one drag.
pub open spec fn temp_dir_name(process_id: u32, drag_id: u64) -> Seq<char> {
    seq!['n', 'e', 's', 't', 'i', 'x', '-', 'd', 'r', 'a', 'g', '-'] + decimal(process_id as nat)
        + seq!['-'] + decimal(drag_id as nat)
}

/// Names the temporary directory for drag `drag_id` of process `process_id`.
pub fn drag_temp_dir_name(process_id: u32, drag_id: u64) -> (name: String)
    ensures
        name@ == temp_dir_name(process_id, drag_id),
{
    let mut name = String::new();
    push_str(&mut name, "nestix-drag-");
    proof {
        reveal_strlit("nestix-drag-");
    }
    push_decimal_u64(&mut name, process_id as u64);
    push_str(&mut name, "-");
    proof {
        reveal_strlit("-");
    }
    push_decimal_u64(&mut name, drag_id);
    name
}

/// The file extension used for a dragged image of the given media type.
pub open spec fn image_extension_for(media_type: Seq<char>) -> Seq<char> {
    if media_type == seq!['i', 'm', 'a', 'g', 'e', '/', 'p', 'n', 'g'] {
        seq!['p', 'n', 'g']
    } else if media_type == seq!['i', 'm', 'a', 'g', 'e', '/', 'j', 'p', 'e', 'g'] {
        seq!['j', 'p', 'g']
    } else if media_type == seq!['i', 'm', 'a', 'g', 'e', '/', 'b', 'm', 'p'] {
        seq!['b', 'm', 'p']
    } else if media_type == seq!['i', 'm', 'a', 'g', 'e', '/', 'g', 'i', 'f'] {
        seq!['g', 'i', 'f']
    } else {
        seq!['i', 'm', 'g']
    }
}

/// The suggested file name of a dropped image: `image.` and the extension of
/// its media type.
pub fn dropped_image_name(media_type: &str) -> (name: String)
    ensures
        name@ == seq!['i', 'm', 'a', 'g', 'e', '.'] + image_extension_for(media_type@),
{
    let mut name = String::new();
    push_str(&mut name, "image.");
    proof {
        reveal_strlit("image.");
        reveal_strlit("image/png");
        reveal_strlit("image/jpeg");
        reveal_strlit("image/bmp");
        reveal_strlit("image/gif");
        reveal_strlit("png");
        reveal_strlit("jpg");
        reveal_strlit("bmp");
        reveal_strlit("gif");
        reveal_strlit("img");
        assert("image/png"@ =~= seq!['i', 'm', 'a', 'g', 'e', '/', 'p', 'n', 'g']);
        assert("image/jpeg"@ =~= seq!['i', 'm', 'a', 'g', 'e', '/', 'j', 'p', 'e', 'g']);
        assert("image/bmp"@ =~= seq!['i', 'm', 'a', 'g', 'e', '/', 'b', 'm', 'p']);
        assert("image/gif"@ =~= seq!['i', 'm', 'a', 'g', 'e', '/', 'g', 'i', 'f']);
        assert("png"@ =~= seq!['p', 'n', 'g']);
        assert("jpg"@ =~= seq!['j', 'p', 'g']);
        assert("bmp"@ =~= seq!['b', 'm', 'p']);
        assert("gif"@ =~= seq!['g', 'i', 'f']);
        assert("img"@ =~= seq!['i', 'm', 'g']);
        assert("image."@ =~= seq!['i', 'm', 'a', 'g', 'e', '.']);
    }
    if crate::menu::str_eq(media_type, "image/png") {
        push_str(&mut name, "png");
    } else if crate::menu::str_eq(media_type, "image/jpeg") {
        push_str(&mut name, "jpg");
    } else if crate::menu::str_eq(media_type, "image/bmp") {
        push_str(&mut name, "bmp");
    } else if crate::menu::str_eq(media_type, "image/gif") {
        push_str(&mut name, "gif");
    } else {
        push_str(&mut name, "img");
    }
    name
}

/// The identifier counter shared by drag sources, drop targets and pending
/// reads: each value is handed out once, then the counter moves on by one
/// (wrapping around like an atomic `fetch_add`).
pub struct DragIds {
    next: u64,
}

impl DragIds {
    /// The value the next call returns.
    pub closed spec fn spec_next(&self) -> u64 {
        self.next
    }

    /// A counter that starts at 1.
    pub fn new() -> (r: Self)
        ensures
            r.spec_next() == 1,
    {
        DragIds { next: 1 }
    }

    /// Hands out the current value and advances by one.
    pub fn next_id(&mut self) -> (id: u64)
        ensures
            id == old(self).spec_next(),
            final(self).spec_next() == (if id == u64::MAX { 0 } else { (id + 1) as u64 }),
    {
        let id = self.next;
        self.next = if id == u64::MAX {
            0
        } else {
            id + 1
        };
        id
    }
}

/// The registrations of drop targets (or drag sources) per native element,
/// each element keeping a stack in registration order. Only the most recent
/// registration of an element handles its events.
pub struct RegistrationStacks {
    stacks: Vec<(u64, Vec<u64>)>,
}

/// The view of one stack list: element key and registration identifiers.
pub open spec fn stacks_view(s: Seq<(u64, Vec<u64>)>) -> Seq<(u64, Seq<u64>)> {
    s.map_values(|p: (u64, Vec<u64>)| (p.0, p.1@))
}

/// Where the stack of element `key` is, if the element has one.
pub open spec fn stack_index(s: Seq<(u64, Seq<u64>)>, key: u64) -> Option<int> {
    if exists|i: int| 0 <= i < s.len() && s[i].0 == key {
        Some(choose|i: int| 0 <= i < s.len() && s[i].0 == key)
    } else {
        None
    }
}

/// Whether registration `id` is the one that handles its element's events.
pub open spec fn is_active_in(s: Seq<(u64, Seq<u64>)>, id: u64) -> bool {
    exists|i: int| 0 <= i < s.len() && s[i].1.len() > 0 && s[i].1.last() == id
}

/// Element keys are distinct and no stack is empty.
pub open spec fn stacks_wf(s: Seq<(u64, Seq<u64>)>) -> bool {
    &&& forall|i: int, j: int| 0 <= i < j < s.len() ==> s[i].0 != s[j].0
    &&& forall|i: int| 0 <= i < s.len() ==> #[trigger] s[i].1.len() > 0
}

impl View for RegistrationStacks {
    type V = Seq<(u64, Seq<u64>)>;

    closed spec fn view(&self) -> Seq<(u64, Seq<u64>)> {
        stacks_view(self.stacks@)
    }
}

impl RegistrationStacks {
    /// See [`stacks_wf`].
    pub open spec fn wf(&self) -> bool {
        stacks_wf(self@)
    }

    /// No registrations.
    pub fn new() -> (r: Self)
        ensures
            r.wf(),
            r@ == Seq::<(u64, Seq<u64>)>::empty(),
    {
        RegistrationStacks { stacks: Vec::new() }
    }

    fn find(&self, key: u64) -> (r: Option<usize>)
        ensures
            match r {
                Some(i) => i < self@.len() && self@[i as int].0 == key,
                None => forall|i: int| 0 <= i < self@.len() ==> self@[i].0 != key,
            },
    {
        let mut i: usize = 0;
        while i < self.stacks.len()
            invariant
                i <= self.stacks.len(),
                forall|j: int| 0 <= j < i ==> self@[j].0 != key,
            decreases self.stacks.len() - i,
        {
            if self.stacks[i].0 == key {
                return Some(i);
            }
            i += 1;
        }
        None
    }

    /// Registers `id` as the newest registration of element `key`.
    pub fn register(&mut self, key: u64, id: u64)
        requires
            old(self).wf(),
        ensures
            final(self).wf(),
            match stack_index(old(self)@, key) {
                Some(i) => final(self)@ == old(self)@.update(i, (key, old(self)@[i].1.push(id))),
                None => final(self)@ == old(self)@.push((key, seq![id])),
            },
    {
        match self.find(key) {
            Some(i) => {
                let ghost before = self@;
                proof {
                    assert(stack_index(before, key) == Some(i as int));
                }
                let mut stack: Vec<u64> = Vec::new();
                std::mem::swap(&mut stack, &mut self.stacks[i].1);
                stack.push(id);
                self.stacks.set(i, (key, stack));
                proof {
                    assert(self@ =~= before.update(i as int, (key, before[i as int].1.push(id))));
                    assert forall|j: int| 0 <= j < self@.len() implies #[trigger] self@[j].1.len() > 0 by {
                        if j != i {
                            assert(self@[j] == before[j]);
                        }
                    }
                }
            },
            None => {
                let ghost before = self@;
                let mut stack: Vec<u64> = Vec::new();
                stack.push(id);
                self.stacks.push((key, stack));
                proof {
                    assert(self@ =~= before.push((key, seq![id])));
                    assert forall|j: int| 0 <= j < self@.len() implies #[trigger] self@[j].1.len() > 0 by {
                        if j < before.len() {
                            assert(self@[j] == before[j]);
                        }
                    }
                }
            },
        }
    }

    /// Ends registration `id` of element `key`. Returns whether the element has
    /// no registration left (its stack is then dropped, and the element stops
    /// taking part in drag and drop).
    pub fn unregister(&mut self, key: u64, id: u64) -> (emptied: bool)
        requires
            old(self).wf(),
        ensures
            final(self).wf(),
            match stack_index(old(self)@, key) {
                Some(i) => {
                    let rest = remove_value(old(self)@[i].1, id);
                    &&& emptied == (rest.len() == 0)
                    &&& final(self)@ == (if rest.len() == 0 {
                        old(self)@.remove(i)
                    } else {
                        old(self)@.update(i, (key, rest))
                    })
                },
                None => !emptied && final(self)@ == old(self)@,
            },
    {
        match self.find(key) {
            Some(i) => {
                let ghost before = self@;
                proof {
                    assert(stack_index(before, key) == Some(i as int));
                    lemma_remove_value_contents(before[i as int].1, id);
                }
                let rest = vec_remove_value(&self.stacks[i].1, id);
                if rest.len() == 0 {
                    self.stacks.remove(i);
                    proof {
                        assert(self@ =~= before.remove(i as int));
                        assert forall|j: int| 0 <= j < self@.len() implies #[trigger] self@[j].1.len() > 0 by {
                            if j < i {
                                assert(self@[j] == before[j]);
                            } else {
                                assert(self@[j] == before[j + 1]);
                            }
                        }
                        assert forall|a: int, b: int| 0 <= a < b < self@.len() implies self@[a].0 != self@[b].0 by {
                            let a2 = if a < i { a } else { a + 1 };
                            let b2 = if b < i { b } else { b + 1 };
                            assert(self@[a] == before[a2]);
                            assert(self@[b] == before[b2]);
                        }
                    }
                    true
                } else {
                    self.stacks.set(i, (key, rest));
                    proof {
                        assert(self@ =~= before.update(i as int, (key, remove_value(before[i as int].1, id))));
                        assert forall|j: int| 0 <= j < self@.len() implies #[trigger] self@[j].1.len() > 0 by {
                            if j != i {
                                assert(self@[j] == before[j]);
                            }
                        }
                    }
                    false
                }
            },
            None => false,
        }
    }

    /// Whether registration `id` is the newest one of its element, and so the
    /// one that handles the element's drag events.
    pub fn is_active(&self, id: u64) -> (r: bool)
        ensures
            r == is_active_in(self@, id),
    {
        let mut i: usize = 0;
        while i < self.stacks.len()
            invariant
                i <= self.stacks.len(),
                forall|j: int| 0 <= j < i ==> !(#[trigger] self@[j].1.len() > 0 && self@[j].1.last() == id),
            decreases self.stacks.len() - i,
        {
            let stack = &self.stacks[i].1;
            if stack.len() > 0 && stack[stack.len() - 1] == id {
                assert(self@[i as int].1.last() == id);
                return true;
            }
            i += 1;
        }
        false
    }
}

/// Law: a new registration of an element takes over its events at once.
pub proof fn lemma_register_makes_active(before: Seq<(u64, Seq<u64>)>, after: Seq<(u64, Seq<u64>)>, key: u64, id: u64)
    requires
        match stack_index(before, key) {
            Some(i) => after == before.update(i, (key, before[i].1.push(id))),
            None => after == before.push((key, seq![id])),
        },
    ensures
        is_active_in(after, id),
{
    match stack_index(before, key) {
        Some(i) => {
            assert(after[i].1.last() == id);
        },
        None => {
            assert(after[before.len() as int].1.last() == id);
        },
    }
}

/// Law: when the newest registration of an element ends, the one before it
/// handles the element's events again.
pub proof fn lemma_unregister_restores_previous(stack: Seq<u64>, id: u64)
    requires
        stack.len() >= 2,
        stack.last() == id,
        stack[stack.len() - 2] != id,
    ensures
        remove_value(stack, id).len() > 0,
        remove_value(stack, id).last() == stack[stack.len() - 2],
{
    let p = stack.drop_last();
    assert(p.last() == stack[stack.len() - 2]);
    assert(remove_value(p, id) == remove_value(p.drop_last(), id).push(p.last()));
}

/// What a drop target does for DragEnter or DragOver of registration `id`:
/// nothing (`None`) unless the registration is its element's active one;
/// otherwise the operation it accepts, which also becomes its current one.
pub open spec fn hover_response(
    active: bool,
    enabled: bool,
    available: DragDataTypes,
    allowed: DragOperations,
    handler: Option<Option<DragOperation>>,
    default_operation: DragOperation,
) -> Option<Option<DragOperation>> {
    if active {
        Some(decided_operation(enabled, available, allowed, handler, default_operation))
    } else {
        None
    }
}

/// Handles DragEnter for registration `id`; `handler` is what its enter
/// handler returned (`None` when it has none).
pub fn target_enter(
    targets: &RegistrationStacks,
    id: u64,
    enabled: bool,
    available: DragDataTypes,
    allowed: DragOperations,
    handler: Option<Option<DragOperation>>,
    default_operation: DragOperation,
) -> (r: Option<Option<DragOperation>>)
    ensures
        r == hover_response(is_active_in(targets@, id), enabled, available, allowed, handler, default_operation),
{
    if targets.is_active(id) {
        Some(decide(enabled, available, allowed, handler, default_operation))
    } else {
        None
    }
}

/// Handles DragOver for registration `id`; `handler` is what its over
/// handler returned (`None` when it has none).
pub fn target_over(
    targets: &RegistrationStacks,
    id: u64,
    enabled: bool,
    available: DragDataTypes,
    allowed: DragOperations,
    handler: Option<Option<DragOperation>>,
    default_operation: DragOperation,
) -> (r: Option<Option<DragOperation>>)
    ensures
        r == hover_response(is_active_in(targets@, id), enabled, available, allowed, handler, default_operation),
{
    if targets.is_active(id) {
        Some(decide(enabled, available, allowed, handler, default_operation))
    } else {
        None
    }
}

/// Handles DragLeave for registration `id`: when it is active, its current
/// operation is cleared (returned as `Some(None)`) and its leave handler runs.
pub fn target_leave(targets: &RegistrationStacks, id: u64) -> (r: Option<Option<DragOperation>>)
    ensures
        r == (if is_active_in(targets@, id) { Some(None::<DragOperation>) } else { None }),
{
    if targets.is_active(id) {
        Some(None)
    } else {
        None
    }
}

/// Delivers the files read for pending request `id`: takes its callback out
/// so that it runs once.
pub fn complete_files<T>(callbacks: &mut CallbackRegistry<T>, id: u64) -> (r: Option<T>)
    ensures
        final(callbacks).next() == old(callbacks).next(),
        final(callbacks).wf() == old(callbacks).wf(),
        final(callbacks)@ == old(callbacks)@.remove(id),
        match r {
            Some(c) => old(callbacks)@.contains_key(id) && c == old(callbacks)@[id],
            None => !old(callbacks)@.contains_key(id),
        },
{
    callbacks.complete(id)
}

/// Delivers the text read for pending request `id`: takes its callback out
/// so that it runs once.
pub fn complete_text<T>(callbacks: &mut CallbackRegistry<T>, id: u64) -> (r: Option<T>)
    ensures
        final(callbacks).next() == old(callbacks).next(),
        final(callbacks).wf() == old(callbacks).wf(),
        final(callbacks)@ == old(callbacks)@.remove(id),
        match r {
            Some(c) => old(callbacks)@.contains_key(id) && c == old(callbacks)@[id],
            None => !old(callbacks)@.contains_key(id),
        },
{
    callbacks.complete(id)
}

/// Delivers the image read for pending request `id`: takes its callback out
/// so that it runs once.
pub fn complete_image<T>(callbacks: &mut CallbackRegistry<T>, id: u64) -> (r: Option<T>)
    ensures
        final(callbacks).next() == old(callbacks).next(),
        final(callbacks).wf() == old(callbacks).wf(),
        final(callbacks)@ == old(callbacks)@.remove(id),
        match r {
            Some(c) => old(callbacks)@.contains_key(id) && c == old(callbacks)@[id],
            None => !old(callbacks)@.contains_key(id),
        },
{
    callbacks.complete(id)
}

} // verus!
