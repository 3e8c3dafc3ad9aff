pub mod a1001_payment_id_v2_migration;
pub mod a1002_default_controllers_migration;
