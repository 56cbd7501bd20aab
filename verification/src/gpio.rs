//! The recovery pin: how to make a pad an input, and how to read its level.
//!
//! Pads 0 to 31 have their bits in the first of each pair of registers, the
//! others in the second. The chip has pads 0 to 56.
use vstd::prelude::*;

verus! {

pub const IO_MUX_GPIO0_REG: usize = 0x500E_1004;

pub const GPIO_IN_REG: usize = 0x500E_2044;

pub const GPIO_IN1_REG: usize = 0x500E_2048;

pub const GPIO_ENABLE_REG: usize = 0x500E_2020;

pub const GPIO_ENABLE1_REG: usize = 0x500E_2024;

/// Pull-down of a pad.
pub const FUN_WPD: u32 = 0x80;

/// Pull-up of a pad.
pub const FUN_WPU: u32 = 0x100;

/// Input enable of a pad.
pub const FUN_IE: u32 = 0x200;

/// The function select field of a pad.
pub const MCU_SEL_MASK: u32 = 0x7000;

/// The GPIO matrix in the function select field.
pub const MCU_SEL_GPIO: u32 = 0x1000;

#[derive(Clone, Copy, Debug)]
pub enum Pull {
    Up,
    Down,
    /// Neither pull.
    Floating,
}

/// A change of a register: some bits are cleared, and then some are set.
#[derive(Clone, Copy, Debug, PartialEq, Eq, Structural)]
pub struct RegisterUpdate {
    pub addr: usize,
    pub clear: u32,
    pub set: u32,
}

/// The value of a register after a change.
pub open spec fn updated(update: RegisterUpdate, v: u32) -> u32 {
    (v & !update.clear) | update.set
}

impl RegisterUpdate {
    /// The value of the register after the change.
    pub fn apply(self, v: u32) -> (r: u32)
        ensures
            r == updated(self, v),
    {
        (v & !self.clear) | self.set
    }
}

/// The bit of a pad in its registers.
pub open spec fn pad_bit(gpio_num: u8) -> u32 {
    if gpio_num < 32 {
        1u32 << gpio_num
    } else {
        1u32 << (gpio_num - 32)
    }
}

/// The bits that stand for a pull.
pub open spec fn pull_bits(pull: Pull) -> u32 {
    match pull {
        Pull::Up => FUN_WPU,
        Pull::Down => FUN_WPD,
        Pull::Floating => 0,
    }
}

/// The change that takes the output of a pad away.
pub open spec fn output_off(gpio_num: u8) -> RegisterUpdate {
    RegisterUpdate {
        addr: if gpio_num < 32 {
            GPIO_ENABLE_REG
        } else {
            GPIO_ENABLE1_REG
        },
        clear: pad_bit(gpio_num),
        set: 0,
    }
}

/// The change that makes a pad an input of the GPIO matrix.
pub open spec fn input_on(gpio_num: u8, pull: Pull) -> RegisterUpdate {
    RegisterUpdate {
        addr: (IO_MUX_GPIO0_REG + 4 * gpio_num) as usize,
        clear: FUN_WPU | FUN_WPD | FUN_IE | MCU_SEL_MASK,
        set: FUN_IE | pull_bits(pull) | MCU_SEL_GPIO,
    }
}

/// The changes, in this order, that make a pad an input with this pull.
pub fn configure_input(gpio_num: u8, pull: Pull) -> (r: (RegisterUpdate, RegisterUpdate))
    requires
        gpio_num < 64,
    ensures
        r == (output_off(gpio_num), input_on(gpio_num, pull)),
{
    let off = if gpio_num < 32 {
        RegisterUpdate { addr: GPIO_ENABLE_REG, clear: 1u32 << gpio_num, set: 0 }
    } else {
        RegisterUpdate { addr: GPIO_ENABLE1_REG, clear: 1u32 << (gpio_num - 32), set: 0 }
    };
    let pull_bits = match pull {
        Pull::Up => FUN_WPU,
        Pull::Down => FUN_WPD,
        Pull::Floating => 0,
    };
    let on = RegisterUpdate {
        addr: IO_MUX_GPIO0_REG + 4 * gpio_num as usize,
        clear: FUN_WPU | FUN_WPD | FUN_IE | MCU_SEL_MASK,
        set: FUN_IE | pull_bits | MCU_SEL_GPIO,
    };
    (off, on)
}

/// The register that holds the input level of a pad.
pub fn input_register(gpio_num: u8) -> (addr: usize)
    ensures
        addr == if gpio_num < 32 {
            GPIO_IN_REG
        } else {
            GPIO_IN1_REG
        },
{
    if gpio_num < 32 {
        GPIO_IN_REG
    } else {
        GPIO_IN1_REG
    }
}

/// The input level of a pad, where its input register holds `v`: `true` for
/// high.
pub fn read(gpio_num: u8, v: u32) -> (high: bool)
    requires
        gpio_num < 64,
    ensures
        high == (v & pad_bit(gpio_num) != 0),
{
    if gpio_num < 32 {
        (v & (1u32 << gpio_num)) != 0
    } else {
        (v & (1u32 << (gpio_num - 32))) != 0
    }
}

/// To make a pad an input twice is the same as once.
pub proof fn law_configure_is_idempotent(gpio_num: u8, pull: Pull, enable: u32, mux: u32)
    ensures
        updated(output_off(gpio_num), updated(output_off(gpio_num), enable)) == updated(
            output_off(gpio_num),
            enable,
        ),
        updated(input_on(gpio_num, pull), updated(input_on(gpio_num, pull), mux)) == updated(
            input_on(gpio_num, pull),
            mux,
        ),
{
    lemma_update_is_idempotent(enable, pad_bit(gpio_num), 0);
    let on = input_on(gpio_num, pull);
    lemma_update_is_idempotent(mux, on.clear, on.set);
}

proof fn lemma_update_is_idempotent(v: u32, clear: u32, set: u32)
    ensures
        (((v & !clear) | set) & !clear) | set == (v & !clear) | set,
{
    assert((((v & !clear) | set) & !clear) | set == (v & !clear) | set) by (bit_vector);
}

/// A pad that was made an input drives nothing, is enabled as an input of the
/// GPIO matrix, has the pull that was asked for and no other, and everything
/// else is as it was.
pub proof fn law_configured_pad(gpio_num: u8, pull: Pull, enable: u32, mux: u32)
    ensures
        updated(output_off(gpio_num), enable) & pad_bit(gpio_num) == 0,
        updated(output_off(gpio_num), enable) & !pad_bit(gpio_num) == enable & !pad_bit(gpio_num),
        updated(input_on(gpio_num, pull), mux) & 0x200u32 == 0x200,
        updated(input_on(gpio_num, pull), mux) & 0x7000u32 == 0x1000,
        updated(input_on(gpio_num, pull), mux) & 0x180u32 == pull_bits(pull),
        updated(input_on(gpio_num, pull), mux) & !0x7380u32 == mux & !0x7380u32,
{
    let bit = pad_bit(gpio_num);
    assert(((enable & !bit) | 0u32) & bit == 0) by (bit_vector);
    assert(((enable & !bit) | 0u32) & !bit == enable & !bit) by (bit_vector);
    let p = pull_bits(pull);
    let v = (mux & !(0x100u32 | 0x80u32 | 0x200u32 | 0x7000u32)) | (0x200u32 | p | 0x1000u32);
    assert(v == updated(input_on(gpio_num, pull), mux));
    assert(v & 0x200u32 == 0x200 && v & 0x7000u32 == 0x1000 && v & 0x180u32 == p && v & !0x7380u32
        == mux & !0x7380u32) by (bit_vector)
        requires
            p == 0x100u32 || p == 0x80u32 || p == 0u32,
            v == (mux & !(0x100u32 | 0x80u32 | 0x200u32 | 0x7000u32)) | (0x200u32 | p | 0x1000u32),
    ;
}

} // verus!
