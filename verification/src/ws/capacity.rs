//! The rules that hold a test against the capacity of the machine.

use crate::models::dsl_model::DslConfig;
use crate::text::{decimal, mb_text, push_decimal, push_megabytes};
use crate::utils::hardware::get_hardware_info;
use vstd::prelude::*;
use vstd::string::StringExecFns;

verus! {

/// The free memory without which no test is started, in kilobytes.
pub const MIN_FREE_RAM_KB: u64 = 500 * 1024;

/// The memory that one worker is counted with, in kilobytes.
pub const RAM_PER_WORKER_KB: u64 = 50 * 1024;

/// The number of workers that one processor core is trusted with.
pub const WORKERS_PER_CORE: u64 = 3;

/// Why the machine cannot carry a test.
#[derive(Debug, Clone, Copy, PartialEq, Eq, Structural)]
pub enum ValidationError {
    /// Less memory is free than any test needs.
    InsufficientRam { free_mem_kb: u64 },
    /// More workers are asked for than the cores carry.
    ConcurrencyAboveCores { concurrency: u64, cpu_cores: u64 },
    /// The workers need more memory than is free.
    ConcurrencyAboveRam { concurrency: u64, free_mem_kb: u64 },
}

/// The verdict of the capacity rules, the first rule that fails deciding:
/// the floor of free memory; three workers per core, where the number of
/// cores is known; the memory of all workers.
pub open spec fn capacity_verdict(concurrency: u64, cpu_cores: u64, free_mem_kb: u64) -> Result<
    (),
    ValidationError,
> {
    if free_mem_kb < MIN_FREE_RAM_KB {
        Err(ValidationError::InsufficientRam { free_mem_kb })
    } else if cpu_cores > 0 && concurrency > WORKERS_PER_CORE * cpu_cores {
        Err(ValidationError::ConcurrencyAboveCores { concurrency, cpu_cores })
    } else if concurrency * RAM_PER_WORKER_KB > free_mem_kb {
        Err(ValidationError::ConcurrencyAboveRam { concurrency, free_mem_kb })
    } else {
        Ok(())
    }
}

/// Holds a test against a reading of the machine.
pub fn validate_against(config: &DslConfig, cpu_cores: u64, free_mem_kb: u64) -> (verdict: Result<
    (),
    ValidationError,
>)
    ensures
        verdict == capacity_verdict(config.concurrency, cpu_cores, free_mem_kb),
{
    let concurrency: u64 = config.concurrency;
    proof {
        assert(WORKERS_PER_CORE * cpu_cores == 3 * cpu_cores) by (nonlinear_arith)
            requires
                WORKERS_PER_CORE == 3,
        ;
        assert(concurrency * RAM_PER_WORKER_KB == concurrency * 51200) by (nonlinear_arith)
            requires
                RAM_PER_WORKER_KB == 51200,
        ;
    }
    if free_mem_kb < MIN_FREE_RAM_KB {
        return Err(ValidationError::InsufficientRam { free_mem_kb });
    }
    if cpu_cores > 0 && concurrency as u128 > (WORKERS_PER_CORE as u128) * (cpu_cores as u128) {
        return Err(ValidationError::ConcurrencyAboveCores { concurrency, cpu_cores });
    }
    if (concurrency as u128) * (RAM_PER_WORKER_KB as u128) > free_mem_kb as u128 {
        return Err(ValidationError::ConcurrencyAboveRam { concurrency, free_mem_kb });
    }
    Ok(())
}

/// Holds a test against the machine as it is now. The verdict is the one
/// that the rules give for some reading of the machine.
pub fn validate_config(config: &DslConfig) -> (verdict: Result<(), ValidationError>)
    ensures
        exists|cpu_cores: u64, free_mem_kb: u64|
            verdict == #[trigger] capacity_verdict(config.concurrency, cpu_cores, free_mem_kb),
{
    let probe = get_hardware_info();
    validate_against(config, probe.0, probe.2)
}

impl ValidationError {
    /// The sentence that tells the operator of the error. Memory is given
    /// in megabytes with two decimals.
    pub open spec fn message_text(&self) -> Seq<char> {
        match *self {
            ValidationError::InsufficientRam { free_mem_kb } => "Insufficient free RAM: "@
                + mb_text(free_mem_kb as nat) + " MB"@,
            ValidationError::ConcurrencyAboveCores { concurrency, cpu_cores } => "Concurrency "@
                + decimal(concurrency as nat) + " is too high for CPU cores "@ + decimal(
                cpu_cores as nat,
            ),
            ValidationError::ConcurrencyAboveRam { concurrency, free_mem_kb } => "Concurrency "@
                + decimal(concurrency as nat)
                + " requires more RAM than available. Required: "@ + decimal(
                (concurrency * 50) as nat,
            ) + ".00 MB, Available: "@ + mb_text(free_mem_kb as nat) + " MB"@,
        }
    }

    /// The sentence that tells the operator of the error.
    pub fn message(&self) -> (text: String)
        ensures
            text@ == self.message_text(),
    {
        match *self {
            ValidationError::InsufficientRam { free_mem_kb } => {
                let mut text = String::from_str("Insufficient free RAM: ");
                push_megabytes(&mut text, free_mem_kb);
                text.append(" MB");
                text
            },
            ValidationError::ConcurrencyAboveCores { concurrency, cpu_cores } => {
                let mut text = String::from_str("Concurrency ");
                push_decimal(&mut text, concurrency as u128);
                text.append(" is too high for CPU cores ");
                push_decimal(&mut text, cpu_cores as u128);
                text
            },
            ValidationError::ConcurrencyAboveRam { concurrency, free_mem_kb } => {
                let mut text = String::from_str("Concurrency ");
                push_decimal(&mut text, concurrency as u128);
                text.append(" requires more RAM than available. Required: ");
                push_decimal(&mut text, (concurrency as u128) * 50);
                text.append(".00 MB, Available: ");
                push_megabytes(&mut text, free_mem_kb);
                text.append(" MB");
                text
            },
        }
    }
}

} // verus!
