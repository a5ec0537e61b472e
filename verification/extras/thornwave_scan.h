/* C interface to the Thornwave scanner.
 *
 * The interface hides the C++ classes, strings and exceptions of the SDK. Every C++
 * exception is caught behind it and returned as an integer failure. */
#ifndef THORNWAVE_SCAN_H
#define THORNWAVE_SCAN_H

#include <stdbool.h>
#include <stdint.h>

#ifdef __cplusplus
extern "C" {
#endif

/* Bytes of each text in an advertisement, which ends in a zero byte if it is shorter. */
#define TW_TEXT_LEN 64

typedef struct TwScanner TwScanner;

typedef struct TwAdvertisement {
    uint64_t serial;
    uint64_t address_raw;
    char address_display[TW_TEXT_LEN];
    char name[TW_TEXT_LEN];
    char model[TW_TEXT_LEN];
    char power_status_display[TW_TEXT_LEN];
    uint32_t device_time_raw;
    uint32_t flags_raw;
    float voltage1_volts;
    float voltage2_volts;
    float current_amps;
    float power_watts;
    float coulomb_meter_raw;
    float power_meter_raw;
    float temperature_celsius;
    uint16_t firmware_version_bcd;
    uint16_t runtime_raw;
    int16_t rssi_dbm;
    uint8_t hardware_revision_bcd;
    uint8_t power_status_code;
    uint8_t soc_raw;
    bool temperature_is_external;
} TwAdvertisement;

/* Called for each advertisement, on a thread of the SDK. The advertisement is valid
 * during the call only. */
typedef void (*TwCallback)(void *user_data, const TwAdvertisement *advertisement);

/* SDK version in BCD, zero if the SDK failed to report it. */
uint16_t tw_library_version_bcd(void);

/* A new scanner, or null. */
TwScanner *tw_scanner_create(void);
void tw_scanner_destroy(TwScanner *scanner);

/* These return zero on success. */
int tw_scanner_set_callback(TwScanner *scanner, TwCallback callback, void *user_data);
int tw_scanner_start_ble(TwScanner *scanner);

void tw_scanner_stop_ble(TwScanner *scanner);

/* Message of the last failure, or null. */
const char *tw_last_error(void);

#ifdef __cplusplus
}
#endif

#endif
