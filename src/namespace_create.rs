use vstd::prelude::*;

verus! {

/// Limits that protect a namespace from unbounded growth.
#[derive(Clone, Copy, Debug, PartialEq, Eq, Structural)]
pub struct ServiceProtectionLimits {
    pub max_tables: Option<i32>,
    pub max_columns_per_table: Option<i32>,
}

/// The limits as given on the command line, each optional.
#[derive(Clone, Copy, Debug, PartialEq, Eq, Structural)]
pub struct ServiceProtectionLimitsArgs {
    /// The maximum number of tables to allow for this namespace.
    pub max_tables: Option<i32>,
    /// The maximum number of columns to allow per table for this namespace.
    pub max_columns_per_table: Option<i32>,
}

impl ServiceProtectionLimitsArgs {
    /// The limits to send, or `None` where no limit was given.
    pub fn limits(self) -> (r: Option<ServiceProtectionLimits>)
        ensures
            (self.max_tables is None && self.max_columns_per_table is None) <==> r is None,
            r matches Some(l) ==> l.max_tables == self.max_tables && l.max_columns_per_table
                == self.max_columns_per_table,
    {
        if self.max_tables.is_none() && self.max_columns_per_table.is_none() {
            None
        } else {
            Some(
                ServiceProtectionLimits {
                    max_tables: self.max_tables,
                    max_columns_per_table: self.max_columns_per_table,
                },
            )
        }
    }
}

/// Arguments of the command that creates a namespace.
#[derive(Clone, Debug)]
pub struct Config {
    /// The namespace to be created.
    pub namespace: String,
    /// Hours of the retention period; 0 means infinite retention.
    pub retention_hours: u32,
    pub service_protection_limits: ServiceProtectionLimitsArgs,
}

/// A request to create a namespace.
#[derive(Clone, Debug)]
pub struct CreateNamespaceRequest {
    pub namespace: String,
    /// Retention period in nanoseconds; `None` for infinite retention.
    pub retention_period_ns: Option<i64>,
    pub service_protection_limits: Option<ServiceProtectionLimits>,
}

/// Nanoseconds in an hour.
pub const NANOS_PER_HOUR: i64 = 3_600_000_000_000;

/// Why a request could not be built.
#[derive(Clone, Copy, Debug, PartialEq, Eq, Structural)]
pub enum ConfigError {
    /// The retention period in nanoseconds does not fit in an `i64`.
    RetentionTooLong,
}

/// The retention period in nanoseconds for `hours`, where it fits in an `i64`.
pub open spec fn retention_ns(hours: u32) -> Option<int> {
    if hours == 0 {
        None
    } else {
        Some(hours as int * NANOS_PER_HOUR as int)
    }
}

/// The retention period in nanoseconds: `None` for 0 hours (infinite),
/// `Err` where the period does not fit in an `i64`.
pub fn retention_period_ns(hours: u32) -> (r: Result<Option<i64>, ConfigError>)
    ensures
        hours == 0 ==> r == Ok::<Option<i64>, ConfigError>(None),
        hours > 0 && hours as int * NANOS_PER_HOUR as int <= i64::MAX ==> r == Ok::<
            Option<i64>,
            ConfigError,
        >(Some((hours as int * NANOS_PER_HOUR as int) as i64)),
        hours > 0 && hours as int * NANOS_PER_HOUR as int > i64::MAX ==> r == Err::<
            Option<i64>,
            ConfigError,
        >(ConfigError::RetentionTooLong),
{
    if hours == 0 {
        Ok(None)
    } else if hours as i64 > i64::MAX / NANOS_PER_HOUR {
        assert(hours as int * NANOS_PER_HOUR as int > i64::MAX) by (nonlinear_arith)
            requires
                hours as int > (i64::MAX as int) / (NANOS_PER_HOUR as int),
        ;
        Err(ConfigError::RetentionTooLong)
    } else {
        assert(hours as int * NANOS_PER_HOUR as int <= i64::MAX) by (nonlinear_arith)
            requires
                hours as int <= (i64::MAX as int) / (NANOS_PER_HOUR as int),
        ;
        Ok(Some(hours as i64 * NANOS_PER_HOUR))
    }
}

impl Config {
    /// The request that creates the configured namespace.
    pub fn request(self) -> (r: Result<CreateNamespaceRequest, ConfigError>)
        ensures
            r matches Ok(req) ==> req.namespace@ == self.namespace@
                && req.service_protection_limits == self.service_protection_limits.limits_spec(),
            self.retention_hours == 0 ==> (r matches Ok(req) && req.retention_period_ns is None),
            self.retention_hours > 0 && self.retention_hours as int * NANOS_PER_HOUR as int
                <= i64::MAX ==> (r matches Ok(req) && req.retention_period_ns == Some(
                (self.retention_hours as int * NANOS_PER_HOUR as int) as i64,
            )),
            self.retention_hours as int * NANOS_PER_HOUR as int > i64::MAX ==> r == Err::<
                CreateNamespaceRequest,
                ConfigError,
            >(ConfigError::RetentionTooLong),
    {
        let retention = match retention_period_ns(self.retention_hours) {
            Ok(v) => v,
            Err(e) => {
                return Err(e);
            },
        };
        Ok(
            CreateNamespaceRequest {
                namespace: self.namespace,
                retention_period_ns: retention,
                service_protection_limits: self.service_protection_limits.limits(),
            },
        )
    }
}

impl ServiceProtectionLimitsArgs {
    /// The limits to send, or `None` where no limit was given.
    pub open spec fn limits_spec(self) -> Option<ServiceProtectionLimits> {
        if self.max_tables is None && self.max_columns_per_table is None {
            None
        } else {
            Some(
                ServiceProtectionLimits {
                    max_tables: self.max_tables,
                    max_columns_per_table: self.max_columns_per_table,
                },
            )
        }
    }
}

} // verus!
