//! The boot controller's decisions: the splash screen's key chord and
//! timeouts, the choice of the default drive, and menu navigation.
use vstd::prelude::*;

verus! {

/// Frames that a key press counts for towards a chord (about 250 ms).
pub const CHORD_WINDOW_FRAMES: u8 = 15;

/// Frames after a chord during which another is ignored.
pub const CHORD_COOLDOWN_FRAMES: u8 = 30;

/// Frames of an idle splash before the automatic boot (about 2 s).
pub const IDLE_TIMEOUT_FRAMES: u32 = 120;

/// Frames that the second chord may take (about 5 s).
pub const CONFIRM_TIMEOUT_FRAMES: u32 = 300;

pub const OS_INDICATIONS_BOOT_TO_FW_UI: u64 = 1;

pub const MIN_DRIVE_SIZE: u64 = 1048576;

/// The splash screen, advanced once per frame.
#[derive(Debug, Clone, Copy, PartialEq, Eq, Structural)]
pub struct Splash {
    pub confirming: bool,
    pub timer: u32,
    pub up_window: u8,
    pub down_window: u8,
    pub cooldown: u8,
}

#[derive(Debug, Clone, Copy, PartialEq, Eq, Structural)]
pub enum SplashOutcome {
    Waiting,
    AutoBoot,
    EnterMenu,
}

pub open spec fn splash_wf(s: Splash) -> bool {
    s.timer <= CONFIRM_TIMEOUT_FRAMES
}

/// One frame: key presses open their windows, windows and cooldown run
/// down, then a chord (both windows open, no cooldown) moves the splash on.
pub open spec fn splash_step(s: Splash, up: bool, down: bool) -> (Splash, SplashOutcome) {
    let up_w = if up { 15u8 } else { s.up_window };
    let down_w = if down { 15u8 } else { s.down_window };
    let up_w2 = if up_w > 0 { (up_w - 1) as u8 } else { 0u8 };
    let down_w2 = if down_w > 0 { (down_w - 1) as u8 } else { 0u8 };
    let cool = if s.cooldown > 0 { (s.cooldown - 1) as u8 } else { 0u8 };
    let chord = up_w2 > 0 && down_w2 > 0;
    let base = Splash { up_window: up_w2, down_window: down_w2, cooldown: cool, ..s };
    if !s.confirming {
        if chord && cool == 0 {
            (Splash { confirming: true, timer: 1, cooldown: CHORD_COOLDOWN_FRAMES, ..base }, SplashOutcome::Waiting)
        } else if s.timer >= IDLE_TIMEOUT_FRAMES {
            (base, SplashOutcome::AutoBoot)
        } else {
            (Splash { timer: (s.timer + 1) as u32, ..base }, SplashOutcome::Waiting)
        }
    } else {
        if chord && cool == 0 {
            (base, SplashOutcome::EnterMenu)
        } else if s.timer >= CONFIRM_TIMEOUT_FRAMES {
            (base, SplashOutcome::AutoBoot)
        } else {
            (Splash { timer: (s.timer + 1) as u32, ..base }, SplashOutcome::Waiting)
        }
    }
}

/// The splash after `k` frames without a key press.
pub open spec fn idle_splash(k: u32) -> Splash {
    Splash { confirming: false, timer: k, up_window: 0, down_window: 0, cooldown: 0 }
}

/// With no key pressed, the splash starts idle, waits through frames 1 to
/// 120 and boots automatically on frame 121, about two seconds in.
pub proof fn lemma_idle_splash_auto_boots(k: u32)
    requires
        k <= IDLE_TIMEOUT_FRAMES,
    ensures
        idle_splash(0) == (Splash { confirming: false, timer: 0, up_window: 0, down_window: 0, cooldown: 0 }),
        k < IDLE_TIMEOUT_FRAMES ==> splash_step(idle_splash(k), false, false) == (
            idle_splash((k + 1) as u32),
            SplashOutcome::Waiting,
        ),
        k == IDLE_TIMEOUT_FRAMES ==> splash_step(idle_splash(k), false, false).1 == SplashOutcome::AutoBoot,
{
}

impl Splash {
    pub fn new() -> (r: Self)
        ensures
            r == (Splash { confirming: false, timer: 0, up_window: 0, down_window: 0, cooldown: 0 }),
    {
        Splash { confirming: false, timer: 0, up_window: 0, down_window: 0, cooldown: 0 }
    }

    /// Advances one frame, given whether Up and Down were pressed in it.
    pub fn frame(&mut self, up: bool, down: bool) -> (r: SplashOutcome)
        requires
            splash_wf(*old(self)),
        ensures
            splash_wf(*final(self)),
            (*final(self), r) == splash_step(*old(self), up, down),
    {
        if up {
            self.up_window = CHORD_WINDOW_FRAMES;
        }
        if down {
            self.down_window = CHORD_WINDOW_FRAMES;
        }
        if self.up_window > 0 {
            self.up_window = self.up_window - 1;
        }
        if self.down_window > 0 {
            self.down_window = self.down_window - 1;
        }
        if self.cooldown > 0 {
            self.cooldown = self.cooldown - 1;
        }
        let chord = self.up_window > 0 && self.down_window > 0;
        if !self.confirming {
            if chord && self.cooldown == 0 {
                self.confirming = true;
                self.timer = 1;
                self.cooldown = CHORD_COOLDOWN_FRAMES;
                return SplashOutcome::Waiting;
            } else if self.timer >= IDLE_TIMEOUT_FRAMES {
                return SplashOutcome::AutoBoot;
            }
        } else {
            if chord && self.cooldown == 0 {
                return SplashOutcome::EnterMenu;
            } else if self.timer >= CONFIRM_TIMEOUT_FRAMES {
                return SplashOutcome::AutoBoot;
            }
        }
        self.timer = self.timer + 1;
        SplashOutcome::Waiting
    }
}

/// The label `RunixOS`, which marks the default boot volume.
pub open spec fn default_label() -> Seq<u8> {
    seq![0x52u8, 0x75u8, 0x6Eu8, 0x69u8, 0x78u8, 0x4Fu8, 0x53u8]
}

pub fn is_default_label(label: &[u8]) -> (r: bool)
    ensures
        r == (label@ == default_label()),
{
    let r = label.len() == 7 && label[0] == 0x52 && label[1] == 0x75 && label[2] == 0x6E && label[3] == 0x69
        && label[4] == 0x78 && label[5] == 0x4F && label[6] == 0x53;
    proof {
        if r {
            assert(label@ =~= default_label());
        } else if label@ == default_label() {
            assert(label@[0] == 0x52 && label@[6] == 0x53);
        }
    }
    r
}

/// The last of the first `n` drives whose label is the default one.
pub open spec fn last_default(labels: Seq<Vec<u8>>, n: int) -> Option<int>
    decreases n,
{
    if n <= 0 {
        None
    } else if labels[n - 1]@ == default_label() {
        Some(n - 1)
    } else {
        last_default(labels, n - 1)
    }
}

/// The drive to boot without asking, by volume label; when several carry
/// the default label, the last one found.
pub fn default_drive(labels: &Vec<Vec<u8>>) -> (r: Option<usize>)
    ensures
        match r {
            Some(i) => last_default(labels@, labels@.len() as int) == Some(i as int),
            None => last_default(labels@, labels@.len() as int).is_none(),
        },
{
    let mut i: usize = labels.len();
    while i > 0
        invariant
            0 <= i <= labels@.len(),
            last_default(labels@, labels@.len() as int) == last_default(labels@, i as int),
        decreases i,
    {
        if is_default_label(labels[i - 1].as_slice()) {
            return Some(i - 1);
        }
        i = i - 1;
    }
    None
}

#[derive(Debug, Clone, Copy, PartialEq, Eq, Structural)]
pub enum BootChoice {
    BootDrive(usize),
    ShowMenu,
}

/// After the splash: boot the default drive unless the menu was asked for
/// or there is none.
pub fn auto_boot_choice(menu_requested: bool, default: Option<usize>) -> (r: BootChoice)
    ensures
        r == (if menu_requested {
            BootChoice::ShowMenu
        } else {
            match default {
                Some(i) => BootChoice::BootDrive(i),
                None => BootChoice::ShowMenu,
            }
        }),
{
    if menu_requested {
        return BootChoice::ShowMenu;
    }
    match default {
        Some(i) => BootChoice::BootDrive(i),
        None => BootChoice::ShowMenu,
    }
}

/// A key, as the controller sees it.
#[derive(Debug, Clone, Copy, PartialEq, Eq, Structural)]
pub enum Key {
    Char(u16),
    Up,
    Down,
    Left,
    Right,
    Escape,
    Other,
}

#[derive(Debug, Clone, Copy, PartialEq, Eq, Structural)]
pub enum MenuEntry {
    /// A drive by its index among the probed drives; `None` stands for
    /// the placeholder shown when no drive was found.
    Drive(Option<usize>),
    FirmwareSettings,
    Reboot,
    Shutdown,
    Recovery,
}

pub open spec fn menu_spec(drives: nat) -> Seq<MenuEntry> {
    let d = if drives == 0 {
        seq![MenuEntry::Drive(None)]
    } else {
        Seq::new(drives, |i: int| MenuEntry::Drive(Some(i as usize)))
    };
    d + seq![MenuEntry::FirmwareSettings, MenuEntry::Reboot, MenuEntry::Shutdown, MenuEntry::Recovery]
}

/// The menu: one entry per drive (or a placeholder), then the system
/// entries.
pub fn build_menu(drive_count: usize) -> (r: Vec<MenuEntry>)
    ensures
        r@ == menu_spec(drive_count as nat),
{
    let mut v: Vec<MenuEntry> = Vec::new();
    if drive_count == 0 {
        v.push(MenuEntry::Drive(None));
    } else {
        let mut i: usize = 0;
        while i < drive_count
            invariant
                0 <= i <= drive_count,
                v@ == Seq::new(i as nat, |k: int| MenuEntry::Drive(Some(k as usize))),
            decreases drive_count - i,
        {
            v.push(MenuEntry::Drive(Some(i)));
            assert(v@ =~= Seq::new((i + 1) as nat, |k: int| MenuEntry::Drive(Some(k as usize))));
            i = i + 1;
        }
    }
    let ghost d = v@;
    v.push(MenuEntry::FirmwareSettings);
    v.push(MenuEntry::Reboot);
    v.push(MenuEntry::Shutdown);
    v.push(MenuEntry::Recovery);
    assert(v@ =~= menu_spec(drive_count as nat));
    v
}

pub open spec fn is_next_key(k: Key) -> bool {
    k == Key::Char(0x64) || k == Key::Char(0x73) || k == Key::Right || k == Key::Down
}

pub open spec fn is_prev_key(k: Key) -> bool {
    k == Key::Char(0x61) || k == Key::Char(0x77) || k == Key::Left || k == Key::Up
}

#[derive(Debug, Clone, Copy, PartialEq, Eq, Structural)]
pub enum MenuCommand {
    MoveTo(usize),
    Select(usize),
    Nothing,
}

/// A key in the menu: `d`, `s`, Right and Down move on, `a`, `w`, Left and
/// Up move back, both wrapping around; Enter selects.
pub fn menu_key(selected: usize, len: usize, key: Key) -> (r: MenuCommand)
    requires
        selected < len,
    ensures
        is_next_key(key) ==> r == MenuCommand::MoveTo(if selected + 1 == len { 0 } else { (selected + 1) as usize }),
        is_prev_key(key) ==> r == MenuCommand::MoveTo(if selected == 0 { (len - 1) as usize } else { (selected - 1) as usize }),
        key == Key::Char(0x0D) ==> r == MenuCommand::Select(selected),
        !is_next_key(key) && !is_prev_key(key) && key != Key::Char(0x0D) ==> r == MenuCommand::Nothing,
{
    let next = key == Key::Char(0x64) || key == Key::Char(0x73) || key == Key::Right || key == Key::Down;
    let prev = key == Key::Char(0x61) || key == Key::Char(0x77) || key == Key::Left || key == Key::Up;
    if next {
        MenuCommand::MoveTo(if selected + 1 == len { 0 } else { selected + 1 })
    } else if prev {
        MenuCommand::MoveTo(if selected == 0 { len - 1 } else { selected - 1 })
    } else if key == Key::Char(0x0D) {
        MenuCommand::Select(selected)
    } else {
        MenuCommand::Nothing
    }
}

#[derive(Debug, Clone, Copy, PartialEq, Eq, Structural)]
pub enum RecoveryCommand {
    Back,
    MoveTo(usize),
    Flash(usize),
    Nothing,
}

/// A key in the recovery device list: Escape goes back, Up and Down move
/// without wrapping, Enter flashes the selected device.
pub fn recovery_key(selected: usize, count: usize, key: Key) -> (r: RecoveryCommand)
    ensures
        key == Key::Escape ==> r == RecoveryCommand::Back,
        key == Key::Up ==> r == RecoveryCommand::MoveTo(if selected > 0 { (selected - 1) as usize } else { selected }),
        key == Key::Down ==> r == RecoveryCommand::MoveTo(if count > 0 && selected + 1 < count { (selected + 1) as usize } else { selected }),
        key == Key::Char(0x0D) ==> r == (if count > 0 && selected < count { RecoveryCommand::Flash(selected) } else { RecoveryCommand::Nothing }),
        key != Key::Escape && key != Key::Up && key != Key::Down && key != Key::Char(0x0D) ==> r == RecoveryCommand::Nothing,
{
    if key == Key::Escape {
        RecoveryCommand::Back
    } else if key == Key::Up {
        RecoveryCommand::MoveTo(if selected > 0 { selected - 1 } else { selected })
    } else if key == Key::Down {
        RecoveryCommand::MoveTo(if count > 0 && selected < count - 1 { selected + 1 } else { selected })
    } else if key == Key::Char(0x0D) {
        if count > 0 && selected < count {
            RecoveryCommand::Flash(selected)
        } else {
            RecoveryCommand::Nothing
        }
    } else {
        RecoveryCommand::Nothing
    }
}

#[derive(Debug, Clone, Copy, PartialEq, Eq, Structural)]
pub enum MenuAction {
    BootDrive(usize),
    Nothing,
    /// Set `OsIndications` bit 0, then reset cold.
    FirmwareSettings,
    ColdReset,
    Shutdown,
    Recovery,
}

pub fn menu_action(entry: MenuEntry) -> (r: MenuAction)
    ensures
        r == match entry {
            MenuEntry::Drive(Some(i)) => MenuAction::BootDrive(i),
            MenuEntry::Drive(None) => MenuAction::Nothing,
            MenuEntry::FirmwareSettings => MenuAction::FirmwareSettings,
            MenuEntry::Reboot => MenuAction::ColdReset,
            MenuEntry::Shutdown => MenuAction::Shutdown,
            MenuEntry::Recovery => MenuAction::Recovery,
        },
{
    match entry {
        MenuEntry::Drive(Some(i)) => MenuAction::BootDrive(i),
        MenuEntry::Drive(None) => MenuAction::Nothing,
        MenuEntry::FirmwareSettings => MenuAction::FirmwareSettings,
        MenuEntry::Reboot => MenuAction::ColdReset,
        MenuEntry::Shutdown => MenuAction::Shutdown,
        MenuEntry::Recovery => MenuAction::Recovery,
    }
}

/// A drive's size in bytes, saturating.
pub fn drive_size(block_size: u32, last_block: u64) -> (r: u64)
    ensures
        r == (if block_size as int * (last_block as int + 1) > u64::MAX {
            u64::MAX as int
        } else {
            block_size as int * (last_block as int + 1)
        }),
{
    if last_block == u64::MAX {
        if block_size == 0 {
            return 0;
        }
        proof {
            assert(block_size as int * (last_block as int + 1) > u64::MAX) by (nonlinear_arith)
                requires
                    block_size >= 1,
                    last_block == u64::MAX,
            ;
        }
        return u64::MAX;
    }
    let blocks = last_block + 1;
    let bs = block_size as u64;
    if bs != 0 && blocks > u64::MAX / bs {
        proof {
            assert(bs as int * blocks as int > u64::MAX) by (nonlinear_arith)
                requires
                    bs > 0,
                    blocks > u64::MAX / bs,
            ;
        }
        u64::MAX
    } else {
        proof {
            assert(bs as int * blocks as int <= u64::MAX) by (nonlinear_arith)
                requires
                    bs == 0 || blocks <= u64::MAX / bs,
            ;
        }
        bs * blocks
    }
}

/// Drives under 1 MiB are left out of the menu.
pub fn is_listed_drive(size: u64) -> (r: bool)
    ensures
        r == (size >= MIN_DRIVE_SIZE),
{
    size >= MIN_DRIVE_SIZE
}

} // verus!
