pub mod booking_order;
pub mod controller;
pub mod migration;
pub mod migrations;
pub mod models;
pub mod ordered_map;
pub mod payment_index;
pub mod principal;
pub mod text;

pub use controller::{add_controller, get_controllers, is_controller, remove_controller};
pub use migration::{
    run_migrations, Migration, MigrationEngine, MigrationError, MigrationStep, SchemaMetadata,
    SchemaVersion,
};
pub use migrations::a1001_payment_id_v2_migration::AddPaymentIdV2Migration;
pub use migrations::a1002_default_controllers_migration::AddDefaultControllersMigration;
pub use models::booking_details::{
    payment_status_to_backend_status, AppReference, BEBookRoomResponse, Booking, BookingDetails,
    BookingId, BookingStatus, BookingSummary, Destination, HotelDetails, HotelRoomDetails,
    ResolvedBookingStatus, RoomDetails, UserEmail,
};
pub use models::date_range::SelectedDateRange;
pub use models::greet::{greeting, GreetParams, GreetResponse};
pub use models::payment_details::{
    BEPaymentApiResponse, BackendPaymentStatus, PaymentDetails, PaymentStatus,
};
pub use models::user_details::{AdultDetail, ChildDetail, UserDetails, UserInfoAndBookings};
pub use models::{CanisterState, EmailSentStruct};
pub use ordered_map::OrderedMap;
pub use payment_index::rebuild_payment_id_index;
pub use principal::Principal;
